//! The websocket client.
use discord_twitch_notif::collections::StringSet;
use discord_twitch_notif::eventsub::{SessionData, WebsocketData};
use discord_twitch_notif::registration::{Request, Transport};
use discord_twitch_notif::websocket::{Message, Occurrence, RunError, Step, WebsocketClient};

const DEFAULT_URL: &str = "wss://eventsub.wss.twitch.tv/ws";

fn client(subscriptions: &[&str]) -> WebsocketClient {
    WebsocketClient::new(StringSet::collect(subscriptions.iter().map(|id| id.to_string()).collect()))
}

fn session(kind: &str, id: &str, reconnect_url: &str) -> Occurrence {
    Occurrence::Received(Message::Text(format!(
        r#"{{"metadata":{{"message_id":"m","message_type":"session_{kind}","message_timestamp":"2022-10-19T14:56:51.634234626Z"}},
            "payload":{{"session":{{"id":"{id}","status":"connected","connected_at":"2022-10-19T14:56:51.616329898Z","keepalive_timeout_seconds":10,"reconnect_url":{reconnect_url}}}}}}}"#
    )))
}

fn event(kind: &str, event_type: &str, event: &str) -> Occurrence {
    Occurrence::Received(Message::Text(format!(
        r#"{{"metadata":{{"message_id":"m-17","message_type":"{kind}","message_timestamp":"2019-11-16T10:11:12.123Z","subscription_type":"{event_type}","subscription_version":"1"}},
            "payload":{{"subscription":{{"id":"s","status":"enabled","type":"{event_type}","version":"1","cost":1,"condition":{{"broadcaster_user_id":"1337"}},"transport":{{"method":"websocket","session_id":"x"}},"created_at":"2019-11-16T10:11:12.123Z"}}{event}}}}}"#
    )))
}

/// The broadcasters that are asked for, each with the session that it is asked in.
fn asked(step: Result<Step, RunError>) -> Vec<(String, String)> {
    let Ok(Step::Ask(requests)) = step else { panic!("there should be something to ask") };
    let mut asked: Vec<(String, String)> = requests
        .into_iter()
        .map(|request| match request {
            Request::Create { broadcaster_user_id, transport: Transport::Websocket { session_id } } => {
                (broadcaster_user_id, session_id)
            }
            _ => panic!("only websocket subscriptions should be asked for"),
        })
        .collect();
    asked.sort();
    asked
}

fn pair(broadcaster: &str, session: &str) -> (String, String) {
    (broadcaster.to_string(), session.to_string())
}

#[test]
fn clients_connect_to_the_default_url() {
    assert_eq!(client(&[]).connect(), DEFAULT_URL);
}

#[test]
fn welcomes_ask_for_every_subscription() {
    let mut client = client(&["1", "2", "1"]);
    let step = client.run(session("welcome", "first", "null"));
    assert_eq!(asked(step), vec![pair("1", "first"), pair("2", "first")]);
    assert_eq!(client.connect(), DEFAULT_URL);
}

#[test]
fn welcomes_without_subscriptions_ask_nothing() {
    assert!(asked(client(&[]).run(session("welcome", "first", "null"))).is_empty());
}

#[test]
fn reconnects_change_the_url_and_ask_again() {
    let mut client = client(&["1"]);
    assert_eq!(asked(client.run(session("welcome", "first", "null"))), vec![pair("1", "first")]);
    let step = client.run(session("reconnect", "second", r#""wss://Other.example.com:443""#));
    assert_eq!(asked(step), vec![pair("1", "second")]);
    assert_eq!(client.connect(), "wss://other.example.com/");
    let Ok(Step::Connect(url)) = client.run(Occurrence::Reset) else { panic!("a reset should reconnect") };
    assert_eq!(url, "wss://other.example.com/");
}

#[test]
fn resets_reconnect_to_the_default_url() {
    let Ok(Step::Connect(url)) = client(&[]).run(Occurrence::Reset) else {
        panic!("a reset should reconnect")
    };
    assert_eq!(url, DEFAULT_URL);
}

#[test]
fn invalid_urls_stop_the_client() {
    let mut client = client(&["1"]);
    let step = client.run(session("reconnect", "second", r#""no url""#));
    assert!(matches!(step, Err(RunError::InvalidUrl(_))));
    assert_eq!(client.connect(), DEFAULT_URL);
    let step = client.run(Occurrence::NewSubscription("2".to_string()));
    assert!(matches!(step, Err(RunError::Uninitialized)));
}

#[test]
fn sessions_can_begin_with_a_url_that_was_read() {
    let mut client = client(&["1"]);
    let step = client.begin_session("third".to_string(), Some(Ok("wss://third.example.com/".to_string())));
    assert_eq!(asked(step), vec![pair("1", "third")]);
    assert_eq!(client.connect(), "wss://third.example.com/");
}

#[test]
fn welcome_messages_are_processed_by_themselves() {
    let mut client = client(&["1"]);
    let data = SessionData { id: "fourth".to_string(), reconnect_url: None };
    assert_eq!(asked(client.process_welcome_message(data)), vec![pair("1", "fourth")]);
}

#[test]
fn reconnects_are_handled_as_welcomes() {
    let data = || SessionData {
        id: "fifth".to_string(),
        reconnect_url: Some("wss://fifth.example.com".to_string()),
    };
    let mut welcomed = client(&["1"]);
    let mut reconnected = client(&["1"]);
    assert_eq!(asked(welcomed.process_data(WebsocketData::Welcome(data()))), vec![pair("1", "fifth")]);
    assert_eq!(asked(reconnected.process_data(WebsocketData::Reconnect(data()))), vec![pair("1", "fifth")]);
    assert_eq!(welcomed.connect(), "wss://fifth.example.com/");
    assert_eq!(reconnected.connect(), welcomed.connect());
}

#[test]
fn streams_that_go_online_are_passed_on() {
    let online = event(
        "notification",
        "stream.online",
        r#","event":{"id":"9001","broadcaster_user_id":"1337","broadcaster_user_login":"cool_user","broadcaster_user_name":"Cool_User","type":"live","started_at":"2020-10-11T10:11:12.123Z"}"#,
    );
    let Ok(Step::Notify(stream)) = client(&[]).run(online) else { panic!("the stream should be passed on") };
    assert_eq!(stream.broadcaster_user_id, "1337");
    assert_eq!(stream.broadcaster_user_login, "cool_user");
    assert_eq!(stream.broadcaster_user_name, "Cool_User");
    assert_eq!(stream.type_, "Live");
    assert_eq!(stream.started_at, "2020-10-11T10:11:12.123Z");
}

#[test]
fn streams_that_are_not_live_say_so() {
    let online = event(
        "notification",
        "stream.online",
        r#","event":{"id":"9001","broadcaster_user_id":"1337","broadcaster_user_login":"cool_user","broadcaster_user_name":"Cool_User","type":"rerun","started_at":"2020-10-11T10:11:12.123Z"}"#,
    );
    let Ok(Step::Notify(stream)) = client(&[]).run(online) else { panic!("the stream should be passed on") };
    assert_eq!(stream.type_, "Rerun");
}

#[test]
fn other_events_are_ignored() {
    let offline = event(
        "notification",
        "stream.offline",
        r#","event":{"broadcaster_user_id":"1337","broadcaster_user_login":"cool_user","broadcaster_user_name":"Cool_User"}"#,
    );
    assert!(matches!(client(&[]).run(offline), Ok(Step::Nothing)));
}

#[test]
fn keepalives_are_ignored() {
    let keepalive = r#"{"metadata":{"message_id":"m","message_type":"session_keepalive","message_timestamp":"2022-11-04T13:11:49.770459792Z"},"payload":{}}"#;
    let step = client(&[]).process_message(Message::Text(keepalive.to_string()));
    assert!(matches!(step, Ok(Step::Nothing)));
}

#[test]
fn revocations_stop_the_client() {
    let Err(error) = client(&[]).run(event("revocation", "stream.online", "")) else {
        panic!("a revocation should stop the client")
    };
    let message = error.message().unwrap();
    assert!(message.starts_with("got revocation event: "));
    assert!(message.contains("m-17"));
}

#[test]
fn revocation_messages_are_exact() {
    let Err(error) = client(&[]).process_data(WebsocketData::Revocation("gone".to_string())) else {
        panic!("a revocation should stop the client")
    };
    assert_eq!(error.message(), Some("got revocation event: gone".to_string()));
}

#[test]
fn closing_stops_the_client() {
    let Err(error) = client(&[]).run(Occurrence::Received(Message::Close)) else {
        panic!("closing should stop the client")
    };
    assert!(matches!(error, RunError::Closed));
    assert_eq!(error.message(), Some("websocket closed".to_string()));
}

#[test]
fn other_messages_are_ignored() {
    assert!(matches!(client(&[]).run(Occurrence::Received(Message::Other)), Ok(Step::Nothing)));
}

#[test]
fn unreadable_messages_stop_the_client() {
    let step = client(&[]).run(Occurrence::Received(Message::Text("hello".to_string())));
    assert!(matches!(step, Err(RunError::Unreadable(_))));
}

#[test]
fn broken_connections_stop_the_client() {
    let Err(error) = client(&[]).run(Occurrence::Broken) else { panic!("the client should stop") };
    assert!(matches!(error, RunError::Broken));
    assert!(error.message().is_none());
}

#[test]
fn new_subscriptions_are_asked_for_once() {
    let mut client = client(&[]);
    assert!(asked(client.run(session("welcome", "first", "null"))).is_empty());
    let step = client.run(Occurrence::NewSubscription("7".to_string()));
    assert_eq!(asked(step), vec![pair("7", "first")]);
    assert!(matches!(client.run(Occurrence::NewSubscription("7".to_string())), Ok(Step::Nothing)));
    let step = client.run(session("reconnect", "second", "null"));
    assert_eq!(asked(step), vec![pair("7", "second")]);
}

#[test]
fn new_subscriptions_need_a_session() {
    let mut client = client(&["7"]);
    assert!(matches!(client.run(Occurrence::NewSubscription("7".to_string())), Ok(Step::Nothing)));
    let Err(error) = client.run(Occurrence::NewSubscription("8".to_string())) else {
        panic!("there is no session to subscribe in")
    };
    assert_eq!(error.message(), Some("tried to add subcription before initialized".to_string()));
}

#[test]
fn subscriptions_are_kept_when_there_was_no_session() {
    let mut client = client(&["7"]);
    assert!(client.run(Occurrence::NewSubscription("8".to_string())).is_err());
    let step = client.run(session("welcome", "first", "null"));
    assert_eq!(asked(step), vec![pair("7", "first"), pair("8", "first")]);
}

#[test]
fn clients_connect_first() {
    let mut client = client(&[]);
    let Ok(Step::Connect(url)) = client.run(Occurrence::Begun) else { panic!("the client should connect") };
    assert_eq!(url, DEFAULT_URL);
    assert!(matches!(client.run(Occurrence::Connected), Ok(Step::Nothing)));
}

#[test]
fn failed_first_connections_stop_the_client() {
    let Err(error) = client(&[]).run(Occurrence::NotConnected) else { panic!("the client should stop") };
    assert!(matches!(error, RunError::NotConnected { again: false }));
    assert_eq!(error.contexts(), vec!["Can't connect", "when establishing connection"]);
    assert!(error.message().is_none());
}

#[test]
fn failed_later_connections_stop_the_client() {
    let mut client = client(&[]);
    assert!(client.run(Occurrence::Connected).is_ok());
    assert!(client.run(Occurrence::Reset).is_ok());
    let Err(error) = client.run(Occurrence::NotConnected) else { panic!("the client should stop") };
    assert!(matches!(error, RunError::NotConnected { again: true }));
    assert_eq!(error.contexts(), vec!["Can't connect", "when reestablishing connection"]);
}

#[test]
fn broken_connections_say_so() {
    let Err(error) = client(&[]).run(Occurrence::Broken) else { panic!("the client should stop") };
    assert_eq!(error.contexts(), vec!["when getting message"]);
}

#[test]
fn failed_requests_stop_the_client() {
    let Err(error) = client(&[]).run(Occurrence::NotAsked) else { panic!("the client should stop") };
    assert!(matches!(error, RunError::NotAsked));
    assert!(error.contexts().is_empty());
}

#[test]
fn missing_receivers_stop_the_client() {
    let Err(error) = client(&[]).run(Occurrence::NotReceived) else { panic!("the client should stop") };
    assert!(matches!(error, RunError::NotReceived));
    assert!(error.contexts().is_empty());
}
