//! Twitch's EventSub: what it sends, and what is asked of it.
use axum::http::HeaderMap;
use axum::http::Request as HttpRequest;
use std::borrow::Cow;
use twitch_api::eventsub::Event::StreamOnlineV1;
use twitch_api::eventsub::EventsubWebsocketData::{
    Notification as Notified, Reconnect as Reconnected, Revocation as Revoked, Welcome as Welcomed,
};
use twitch_api::eventsub::Message::Notification;
use twitch_api::eventsub::{Event, Payload, PayloadParseError};
use vstd::prelude::*;

use self::WebsocketData::{Other, Reconnect, Revocation, UnexpectedNotification, Welcome};
use crate::text::optional_text;

verus! {

/// Outside type: the headers of an HTTP request.
#[verifier::external_type_specification]
#[verifier::external_body]
#[verifier::reject_recursive_types(T)]
pub struct ExHeaderMap<T>(axum::http::HeaderMap<T>);

/// Outside type: the value of one HTTP header.
#[verifier::external_type_specification]
#[verifier::external_body]
pub struct ExHeaderValue(axum::http::HeaderValue);

/// Outside type: why a payload of Twitch could not be read.
#[verifier::external_type_specification]
#[verifier::external_body]
pub struct ExPayloadParseError(twitch_api::eventsub::PayloadParseError);

/// Outside type: a JSON value.
#[verifier::external_type_specification]
#[verifier::external_body]
pub struct ExValue(serde_json::Value);

/// A stream that went online.
pub struct StreamOnline {
    /// The broadcaster's user id.
    pub broadcaster_user_id: String,
    /// The broadcaster's login.
    pub broadcaster_user_login: String,
    /// The name under which the broadcaster is shown.
    pub broadcaster_user_name: String,
    /// The type of the stream: `Live`, or the name of another of Twitch's video types.
    pub type_: String,
    /// The RFC 3339 timestamp at which the stream went online.
    pub started_at: String,
}

/// What a [`StreamOnline`] says.
pub struct StreamOnlineView {
    pub broadcaster_user_id: Seq<char>,
    pub broadcaster_user_login: Seq<char>,
    pub broadcaster_user_name: Seq<char>,
    pub type_: Seq<char>,
    pub started_at: Seq<char>,
}

impl View for StreamOnline {
    type V = StreamOnlineView;

    open spec fn view(&self) -> StreamOnlineView {
        StreamOnlineView {
            broadcaster_user_id: self.broadcaster_user_id@,
            broadcaster_user_login: self.broadcaster_user_login@,
            broadcaster_user_name: self.broadcaster_user_name@,
            type_: self.type_@,
            started_at: self.started_at@,
        }
    }
}

/// What an optional [`StreamOnline`] says.
pub open spec fn optional_stream(stream: Option<StreamOnline>) -> Option<StreamOnlineView> {
    match stream {
        Some(stream) => Some(stream@),
        None => None,
    }
}

/// What the server says of a websocket session.
pub struct SessionData {
    /// The id of the session.
    pub id: String,
    /// The URL to connect to from now on, where it changes.
    pub reconnect_url: Option<String>,
}

/// What a [`SessionData`] says.
pub struct SessionDataView {
    pub id: Seq<char>,
    pub reconnect_url: Option<Seq<char>>,
}

impl View for SessionData {
    type V = SessionDataView;

    open spec fn view(&self) -> SessionDataView {
        SessionDataView { id: self.id@, reconnect_url: optional_text(self.reconnect_url) }
    }
}

/// A text message of the websocket.
pub enum WebsocketData {
    /// A welcome to a session.
    Welcome(SessionData),
    /// The announcement that a session is to be reconnected to.
    Reconnect(SessionData),
    /// A stream went online.
    StreamOnline(StreamOnline),
    /// A notification of anything else.
    UnexpectedNotification,
    /// A subscription was revoked; with what the server says of it.
    Revocation(String),
    /// Anything else: a keepalive.
    Other,
}

/// What a [`WebsocketData`] says.
pub enum WebsocketDataView {
    Welcome(SessionDataView),
    Reconnect(SessionDataView),
    StreamOnline(StreamOnlineView),
    UnexpectedNotification,
    Revocation(Seq<char>),
    Other,
}

impl View for WebsocketData {
    type V = WebsocketDataView;

    open spec fn view(&self) -> WebsocketDataView {
        match self {
            WebsocketData::Welcome(session) => WebsocketDataView::Welcome(session@),
            WebsocketData::Reconnect(session) => WebsocketDataView::Reconnect(session@),
            WebsocketData::StreamOnline(stream) => WebsocketDataView::StreamOnline(stream@),
            WebsocketData::UnexpectedNotification => WebsocketDataView::UnexpectedNotification,
            WebsocketData::Revocation(metadata) => WebsocketDataView::Revocation(metadata@),
            WebsocketData::Other => WebsocketDataView::Other,
        }
    }
}

/// An event that the webhook received, as far as it is of interest.
pub struct WebhookEvent {
    /// The challenge to answer with, where the event asks to verify a subscription.
    pub challenge: Option<String>,
    /// Whether the event says that a subscription was revoked.
    pub revocation: bool,
    /// The stream that went online, where the event notifies of one.
    pub stream_online: Option<StreamOnline>,
}

/// What a [`WebhookEvent`] says.
pub struct WebhookEventView {
    pub challenge: Option<Seq<char>>,
    pub revocation: bool,
    pub stream_online: Option<StreamOnlineView>,
}

impl View for WebhookEvent {
    type V = WebhookEventView;

    open spec fn view(&self) -> WebhookEventView {
        WebhookEventView {
            challenge: optional_text(self.challenge),
            revocation: self.revocation,
            stream_online: optional_stream(self.stream_online),
        }
    }
}

/// What each spelling of a header's name gives: the bytes of the first value of that header.
pub uninterp spec fn header_values(headers: axum::http::HeaderMap) -> Map<Seq<char>, Seq<u8>>;

/// Calls `http::HeaderMap::get`. Trusted: it gives the first value of the header `name`, and
/// nothing where there is no such header.
#[verifier::external_body]
pub(crate) fn header(headers: &HeaderMap, name: &str) -> (value: Option<Vec<u8>>)
    ensures
        value is Some <==> header_values(*headers).contains_key(name@),
        value is Some ==> value.unwrap()@ == header_values(*headers)[name@],
{
    match headers.get(name) {
        Some(value) => Some(value.as_bytes().to_vec()),
        None => None,
    }
}

/// The members of a JSON object whose values are strings.
pub uninterp spec fn string_members(value: serde_json::Value) -> Map<Seq<char>, Seq<char>>;

/// Calls `serde_json::Value::get`, and `serde_json::Value::as_str` on what it finds. Trusted: they
/// give the member `name` of an object where its value is a string, and nothing otherwise.
#[verifier::external_body]
pub(crate) fn string_member(value: &serde_json::Value, name: &str) -> (member: Option<String>)
    ensures
        member is Some <==> string_members(*value).contains_key(name@),
        member is Some ==> member.unwrap()@ == string_members(*value)[name@],
{
    match value.get(name)?.as_str() {
        Some(member) => Some(member.to_string()),
        None => None,
    }
}

/// What a text message of the websocket says, if it can be read.
pub uninterp spec fn websocket_data(frame: Seq<char>) -> Option<WebsocketDataView>;

/// Calls `twitch_api::eventsub::Event::parse_websocket`. Trusted: what it reads, and whether it
/// can, depends on `frame` alone.
#[verifier::external_body]
pub(crate) fn parse_websocket(frame: &str) -> (data: Result<WebsocketData, PayloadParseError>)
    ensures
        match data {
            Ok(data) => websocket_data(frame@) == Some(data@),
            Err(_) => websocket_data(frame@) is None,
        },
{
    Ok(match Event::parse_websocket(frame)? {
        Welcomed { payload, .. } =>
            Welcome(SessionData { id: payload.session.id.into_owned(), reconnect_url: payload.session.reconnect_url.map(Cow::into_owned) }),
        Reconnected { payload, .. } =>
            Reconnect(SessionData { id: payload.session.id.into_owned(), reconnect_url: payload.session.reconnect_url.map(Cow::into_owned) }),
        Notified { payload: StreamOnlineV1(Payload { message: Notification(stream), .. }), .. } =>
            WebsocketData::StreamOnline(StreamOnline {
                broadcaster_user_id: stream.broadcaster_user_id.take(), broadcaster_user_login: stream.broadcaster_user_login.take(),
                broadcaster_user_name: stream.broadcaster_user_name.take(), type_: format!("{:?}", stream.type_), started_at: stream.started_at.take()
            }),
        Notified { .. } => UnexpectedNotification,
        Revoked { metadata, .. } => Revocation(format!("{metadata:?}")),
        _ => Other
    })
}

/// What an event that the webhook received says, if it can be read.
pub uninterp spec fn webhook_event(
    headers: Map<Seq<char>, Seq<u8>>,
    body: Seq<u8>,
) -> Option<WebhookEventView>;

/// Calls `twitch_api::eventsub::Event::parse_http`, and `get_verification_request` and
/// `is_revocation` on the event. Trusted: what they say, and whether the event can be read, depends
/// on the headers and the body of the request alone.
#[verifier::external_body]
pub(crate) fn parse_http(headers: &HeaderMap, body: &Vec<u8>) -> (event: Result<WebhookEvent, PayloadParseError>)
    ensures
        match event {
            Ok(event) => webhook_event(header_values(*headers), body@) == Some(event@),
            Err(_) => webhook_event(header_values(*headers), body@) is None,
        },
{
    let mut request = HttpRequest::new(body.as_slice());
    *request.headers_mut() = headers.clone();
    let event = Event::parse_http(&request)?;
    let (challenge, revocation) = (event.get_verification_request().map(|request| request.challenge.clone()), event.is_revocation());
    let stream_online = match event {
        StreamOnlineV1(Payload { message: Notification(stream), .. }) => Some(StreamOnline {
            broadcaster_user_id: stream.broadcaster_user_id.take(), broadcaster_user_login: stream.broadcaster_user_login.take(),
            broadcaster_user_name: stream.broadcaster_user_name.take(), type_: format!("{:?}", stream.type_), started_at: stream.started_at.take(),
        }),
        _ => None,
    };
    Ok(WebhookEvent { challenge, revocation, stream_online })
}

/// What is said of a stream is what it holds.
pub proof fn law_streams_say_what_they_hold(stream: StreamOnline)
    ensures
        stream@.broadcaster_user_id == stream.broadcaster_user_id@,
        stream@.broadcaster_user_login == stream.broadcaster_user_login@,
        stream@.broadcaster_user_name == stream.broadcaster_user_name@,
        stream@.type_ == stream.type_@,
        stream@.started_at == stream.started_at@,
        optional_stream(Some(stream)) == Some(stream@),
        optional_stream(None) is None,
{
}

/// What is said of a session, and of a text message of the websocket, is what it holds.
pub proof fn law_websocket_data_says_what_it_holds(session: SessionData, data: WebsocketData)
    ensures
        session@.id == session.id@,
        session.reconnect_url is None <==> session@.reconnect_url is None,
        session.reconnect_url is Some ==> session@.reconnect_url == Some(session.reconnect_url.unwrap()@),
        match data {
            WebsocketData::Welcome(session) => data@ matches WebsocketDataView::Welcome(s) && s == session@,
            WebsocketData::Reconnect(session) => data@ matches WebsocketDataView::Reconnect(s) && s == session@,
            WebsocketData::StreamOnline(stream) => data@ matches WebsocketDataView::StreamOnline(s) && s
                == stream@,
            WebsocketData::UnexpectedNotification => data@ is UnexpectedNotification,
            WebsocketData::Revocation(metadata) => data@ matches WebsocketDataView::Revocation(m) && m
                == metadata@,
            WebsocketData::Other => data@ is Other,
        },
{
}

/// What is said of an event is what it holds.
pub proof fn law_events_say_what_they_hold(event: WebhookEvent)
    ensures
        event.challenge is None <==> event@.challenge is None,
        event.challenge is Some ==> event@.challenge == Some(event.challenge.unwrap()@),
        event@.revocation == event.revocation,
        event.stream_online is None <==> event@.stream_online is None,
        event.stream_online is Some ==> event@.stream_online == Some(event.stream_online.unwrap()@),
{
}

} // verus!
