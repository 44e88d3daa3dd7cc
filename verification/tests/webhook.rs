//! Requests to the webhook.
use axum::http::{HeaderMap, HeaderValue};
use discord_twitch_notif::eventsub::{StreamOnline, WebhookEvent};
use discord_twitch_notif::webhook::{handle_event, twitch_eventsub, Action, Progress, Reception};

const SECRET: &str = "SECRETsecret0123";
const TIMESTAMP: &str = "2023-10-15T12:00:00.5Z";

const ONLINE: &str = r#"{"subscription":{"id":"sub-1","status":"enabled","type":"stream.online","version":"1","cost":1,"condition":{"broadcaster_user_id":"1337"},"transport":{"method":"webhook","callback":"https://dtn.example.com/twitch-events"},"created_at":"2023-10-14T08:00:00Z"},"event":{"id":"9001","broadcaster_user_id":"1337","broadcaster_user_login":"cool_user","broadcaster_user_name":"Cool_User","type":"live","started_at":"2023-10-15T11:59:58Z"}}"#;
const ONLINE_SIGNATURE: &str = "sha256=e15fe54b084ec8252e5369208714df9ecc45abc7d99221b4f33730cca2b1e1e4";

const CHALLENGE: &str = r#"{"challenge":"kappa-challenge-360","subscription":{"id":"sub-1","status":"webhook_callback_verification_pending","type":"stream.online","version":"1","cost":1,"condition":{"broadcaster_user_id":"1337"},"transport":{"method":"webhook","callback":"https://dtn.example.com/twitch-events"},"created_at":"2023-10-14T08:00:00Z"}}"#;
const CHALLENGE_SIGNATURE: &str = "sha256=f4e9cc7f1ff054107b0898666f323e4d2693d6a46ec375f96d4d7d4b74e73242";

const REVOCATION: &str = r#"{"subscription":{"id":"sub-1","status":"authorization_revoked","type":"stream.online","version":"1","cost":1,"condition":{"broadcaster_user_id":"1337"},"transport":{"method":"webhook","callback":"https://dtn.example.com/twitch-events"},"created_at":"2023-10-14T08:00:00Z"}}"#;
const REVOCATION_SIGNATURE: &str = "sha256=ce8ebc1c4152ddf975c6b76636a466e32581dd71eabd111aa80747254d7acd5c";

const OFFLINE: &str = r#"{"subscription":{"id":"sub-1","status":"enabled","type":"stream.offline","version":"1","cost":1,"condition":{"broadcaster_user_id":"1337"},"transport":{"method":"webhook","callback":"https://dtn.example.com/twitch-events"},"created_at":"2023-10-14T08:00:00Z"},"event":{"broadcaster_user_id":"1337","broadcaster_user_login":"cool_user","broadcaster_user_name":"Cool_User"}}"#;
const OFFLINE_SIGNATURE: &str = "sha256=22dbf109a5fb3830f4c2e24fddb9361d97edef9ad9549d8d383a020fb76cda5a";

const BROKEN: &str = r#"{"subscription":"#;
const BROKEN_SIGNATURE: &str = "sha256=e54d342b925b1fac975dc193f064964366b7a5781b9e3d45a28af2d074090654";

fn headers(id: &str, signature: &str, message_type: &str, event_type: &str) -> HeaderMap {
    let mut headers = HeaderMap::new();
    headers.insert("Twitch-Eventsub-Message-Id", HeaderValue::from_str(id).unwrap());
    headers.insert("Twitch-Eventsub-Message-Timestamp", HeaderValue::from_static(TIMESTAMP));
    headers.insert("Twitch-Eventsub-Message-Signature", HeaderValue::from_str(signature).unwrap());
    headers.insert("Twitch-Eventsub-Message-Type", HeaderValue::from_str(message_type).unwrap());
    headers.insert("Twitch-Eventsub-Subscription-Type", HeaderValue::from_str(event_type).unwrap());
    headers.insert("Twitch-Eventsub-Subscription-Version", HeaderValue::from_static("1"));
    headers
}

fn online_headers() -> HeaderMap {
    headers("online-1", ONLINE_SIGNATURE, "notification", "stream.online")
}

fn with_body(headers: HeaderMap, body: &str) -> Progress {
    Progress::Body { headers, body: Some(body.as_bytes().to_vec()) }
}

fn received(headers: HeaderMap, body: &str) -> (Vec<u8>, Reception) {
    match twitch_eventsub(SECRET, with_body(headers, body)) {
        Action::LookUp { id, reception } => (id, reception),
        _ => panic!("the request should be taken for signed"),
    }
}

/// Handles a request whose message id was not seen before.
fn delivered(headers: HeaderMap, body: &str) -> Action {
    let (looked_up, reception) = received(headers, body);
    match twitch_eventsub(SECRET, Progress::LookedUp { reception, seen: false }) {
        Action::Remember { id, milliseconds, reception } => {
            assert_eq!(id, looked_up);
            assert_eq!(milliseconds, 400);
            twitch_eventsub(SECRET, Progress::Remembered { reception })
        }
        _ => panic!("a new message should be remembered"),
    }
}

fn answered(action: Action) -> Result<String, (u16, String)> {
    match action {
        Action::Answer { answer } => answer,
        _ => panic!("the request should be answered"),
    }
}

fn refusal(action: Action) -> (u16, String) {
    answered(action).unwrap_err()
}

#[test]
fn bodies_below_the_limit_are_read() {
    for size in [0, 1, 65535] {
        assert!(matches!(twitch_eventsub(SECRET, Progress::Head { size: Some(size) }), Action::ReadBody));
    }
}

#[test]
fn bodies_from_the_limit_on_are_refused() {
    for size in [Some(65536), Some(65537), Some(u64::MAX), None] {
        let refused = refusal(twitch_eventsub(SECRET, Progress::Head { size }));
        assert_eq!(refused, (400, "too big data given".to_string()));
    }
}

#[test]
fn unreadable_bodies_are_an_internal_error() {
    let refused = refusal(twitch_eventsub(SECRET, Progress::Body { headers: online_headers(), body: None }));
    assert_eq!(refused, (500, String::new()));
}

#[test]
fn signed_requests_are_looked_up_by_their_id() {
    let (id, _) = received(online_headers(), ONLINE);
    assert_eq!(id, b"online-1".to_vec());
}

#[test]
fn published_signature_is_found_right() {
    let mut headers = HeaderMap::new();
    headers.insert("Twitch-Eventsub-Message-Id", HeaderValue::from_static("8d8fa82b-9792-79da-4e11-a6fa58a7a582"));
    headers.insert("Twitch-Eventsub-Message-Timestamp", HeaderValue::from_static("2022-02-06T04:03:24.2726598Z"));
    headers.insert(
        "Twitch-Eventsub-Message-Signature",
        HeaderValue::from_static("sha256=091f6a5c74fba820f2d50e9d0c5e7650556ee009375af2cc662e610e670bc412"),
    );
    let body = r#"{"challenge":"11535768-497e-14ec-8197-ba2cb5341a01","subscription":{"id":"8d8fa82b-9792-79da-4e11-a6fa58a7a582","status":"webhook_callback_verification_pending","type":"channel.subscribe","version":"1","condition":{"broadcaster_user_id":"88525095"},"transport":{"method":"webhook","callback":"http://localhost:80/twitch/eventsub"},"created_at":"2022-02-06T04:03:24.2706497Z","cost":0}}"#;
    assert!(matches!(twitch_eventsub("HELLOabc2321", with_body(headers, body)), Action::LookUp { .. }));
}

#[test]
fn requests_signed_with_another_secret_are_refused() {
    let refused = refusal(twitch_eventsub("another secret", with_body(online_headers(), ONLINE)));
    assert_eq!(refused, (400, "Invalid signature".to_string()));
}

#[test]
fn requests_with_a_changed_body_are_refused() {
    let body = ONLINE.replace("Cool_User", "Other_User");
    let refused = refusal(twitch_eventsub(SECRET, with_body(online_headers(), &body)));
    assert_eq!(refused, (400, "Invalid signature".to_string()));
}

#[test]
fn requests_with_a_changed_id_are_refused() {
    let changed = headers("online-2", ONLINE_SIGNATURE, "notification", "stream.online");
    let refused = refusal(twitch_eventsub(SECRET, with_body(changed, ONLINE)));
    assert_eq!(refused, (400, "Invalid signature".to_string()));
}

#[test]
fn requests_that_miss_a_header_are_refused() {
    for name in [
        "Twitch-Eventsub-Message-Id",
        "Twitch-Eventsub-Message-Timestamp",
        "Twitch-Eventsub-Message-Signature",
    ] {
        let mut headers = online_headers();
        headers.remove(name);
        let refused = refusal(twitch_eventsub(SECRET, with_body(headers, ONLINE)));
        assert_eq!(refused, (400, "Invalid signature".to_string()));
    }
}

#[test]
fn signatures_that_encode_nothing_are_refused() {
    for signature in ["", "sha256", "sha1=00", "sha256=0", "sha256=0g", "sha256=-1", "sha256=1+"] {
        let changed = headers("online-1", signature, "notification", "stream.online");
        let refused = refusal(twitch_eventsub(SECRET, with_body(changed, ONLINE)));
        assert_eq!(refused, (400, "Invalid signature".to_string()));
    }
}

#[test]
fn signatures_of_no_digest_are_given_up_on() {
    let too_long = format!("{ONLINE_SIGNATURE}00");
    for signature in ["sha256=", "sha256=00", "sha256=+a", "sha256=aAfF09", too_long.as_str()] {
        let changed = headers("online-1", signature, "notification", "stream.online");
        assert!(matches!(twitch_eventsub(SECRET, with_body(changed, ONLINE)), Action::IllSizedSignature));
    }
}

#[test]
fn ill_sized_signatures_of_incomplete_requests_are_refused() {
    let mut changed = headers("online-1", "sha256=00", "notification", "stream.online");
    changed.remove("Twitch-Eventsub-Message-Timestamp");
    let refused = refusal(twitch_eventsub(SECRET, with_body(changed, ONLINE)));
    assert_eq!(refused, (400, "Invalid signature".to_string()));
}

#[test]
fn seen_messages_are_acknowledged_and_nothing_else() {
    let (_, reception) = received(online_headers(), ONLINE);
    assert_eq!(answered(twitch_eventsub(SECRET, Progress::LookedUp { reception, seen: true })), Ok(String::new()));
}

#[test]
fn live_streams_are_passed_on() {
    let Action::Notify { stream } = delivered(online_headers(), ONLINE) else {
        panic!("the stream should be passed on")
    };
    assert_eq!(stream.broadcaster_user_id, "1337");
    assert_eq!(stream.broadcaster_user_login, "cool_user");
    assert_eq!(stream.broadcaster_user_name, "Cool_User");
    assert_eq!(stream.type_, "Live");
    assert_eq!(stream.started_at, "2023-10-15T11:59:58Z");
}

#[test]
fn streams_that_were_received_are_acknowledged() {
    let action = twitch_eventsub(SECRET, Progress::Notified { sent: true });
    assert_eq!(answered(action), Ok(String::new()));
}

#[test]
fn streams_that_nobody_receives_are_given_up_on() {
    let Action::Undeliverable { message } = twitch_eventsub(SECRET, Progress::Notified { sent: false }) else {
        panic!("nobody is there to receive the stream")
    };
    assert_eq!(message, "should be able to send to live_notifications channel");
}

#[test]
fn challenges_are_the_answer() {
    let headers =
        headers("challenge-1", CHALLENGE_SIGNATURE, "webhook_callback_verification", "stream.online");
    assert_eq!(answered(delivered(headers, CHALLENGE)), Ok("kappa-challenge-360".to_string()));
}

#[test]
fn revocations_are_acknowledged() {
    let headers = headers("revocation-1", REVOCATION_SIGNATURE, "revocation", "stream.online");
    assert_eq!(answered(delivered(headers, REVOCATION)), Ok(String::new()));
}

#[test]
fn other_notifications_are_acknowledged() {
    let headers = headers("offline-1", OFFLINE_SIGNATURE, "notification", "stream.offline");
    assert_eq!(answered(delivered(headers, OFFLINE)), Ok(String::new()));
}

#[test]
fn signed_events_that_cannot_be_read_are_given_up_on() {
    let headers = headers("broken-1", BROKEN_SIGNATURE, "notification", "stream.online");
    assert!(matches!(delivered(headers, BROKEN), Action::Unreadable(_)));
}

#[test]
fn signed_events_of_unknown_type_are_given_up_on() {
    let mut headers = online_headers();
    headers.insert("Twitch-Eventsub-Message-Type", HeaderValue::from_static("greeting"));
    assert!(matches!(delivered(headers, ONLINE), Action::Unreadable(_)));
}

fn stream() -> StreamOnline {
    StreamOnline {
        broadcaster_user_id: "1".to_string(),
        broadcaster_user_login: "one".to_string(),
        broadcaster_user_name: "One".to_string(),
        type_: "Live".to_string(),
        started_at: "2023-10-15T11:59:58Z".to_string(),
    }
}

#[test]
fn the_challenge_comes_first() {
    let event =
        WebhookEvent { challenge: Some("c".to_string()), revocation: true, stream_online: Some(stream()) };
    assert_eq!(answered(handle_event(event)), Ok("c".to_string()));
}

#[test]
fn revocations_pass_nothing_on() {
    let event = WebhookEvent { challenge: None, revocation: true, stream_online: Some(stream()) };
    assert_eq!(answered(handle_event(event)), Ok(String::new()));
}

#[test]
fn streams_are_handled_by_themselves() {
    let event = WebhookEvent { challenge: None, revocation: false, stream_online: Some(stream()) };
    let Action::Notify { stream } = handle_event(event) else { panic!("the stream should be passed on") };
    assert_eq!(stream.broadcaster_user_name, "One");
    let nothing = WebhookEvent { challenge: None, revocation: false, stream_online: None };
    assert_eq!(answered(handle_event(nothing)), Ok(String::new()));
}

#[test]
fn retries_of_unreadable_events_are_acknowledged() {
    let broken = || headers("broken-1", BROKEN_SIGNATURE, "notification", "stream.online");
    assert!(matches!(delivered(broken(), BROKEN), Action::Unreadable(_)));
    let (_, reception) = received(broken(), BROKEN);
    let action = twitch_eventsub(SECRET, Progress::LookedUp { reception, seen: true });
    assert_eq!(answered(action), Ok(String::new()));
}
