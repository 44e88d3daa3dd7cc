//! The webhook through which Twitch delivers its events.
use axum::http::HeaderMap;
use axum::http::Request as HttpRequest;
use twitch_api::eventsub::{Event, PayloadParseError};
use vstd::prelude::*;

use crate::eventsub::{
    header, header_values, parse_http, webhook_event, StreamOnline, StreamOnlineView, WebhookEvent,
    WebhookEventView,
};

verus! {

/// The size from which on a request is refused, in bytes.
pub const MAX_ALLOWED_RESPONSE_SIZE: u64 = 64 * 1024;

/// How long the id of a message is remembered, in milliseconds.
pub const REMEMBERED_MILLISECONDS: u64 = 400;

/// The status code of a request that the sender got wrong.
pub const BAD_REQUEST: u16 = 400;

/// The status code of a request that the receiver could not handle.
pub const INTERNAL_SERVER_ERROR: u16 = 500;

/// The header that holds the id of a message.
pub open spec fn message_id_header() -> Seq<char> {
    "Twitch-Eventsub-Message-Id"@
}

/// The header that holds the time at which a message was sent.
pub open spec fn timestamp_header() -> Seq<char> {
    "Twitch-Eventsub-Message-Timestamp"@
}

/// The header that holds the signature of a message.
pub open spec fn signature_header() -> Seq<char> {
    "Twitch-Eventsub-Message-Signature"@
}

/// Whether `b` is a hexadecimal digit.
pub open spec fn is_hex_digit(b: u8) -> bool {
    ||| 0x30 <= b <= 0x39
    ||| 0x41 <= b <= 0x46
    ||| 0x61 <= b <= 0x66
}

/// Whether `signature` starts with `sha256=`.
pub open spec fn is_sha256(signature: Seq<u8>) -> bool {
    &&& signature.len() >= 7
    &&& signature.take(7) == seq![0x73u8, 0x68, 0x61, 0x32, 0x35, 0x36, 0x3d]
}

/// Whether the byte at `i` of a `sha256=` signature can stand there: the bytes come in pairs, and
/// each pair is two hexadecimal digits, or a plus sign and one.
pub open spec fn is_encoding(signature: Seq<u8>, i: int) -> bool {
    ||| is_hex_digit(signature[i])
    ||| (i - 7) % 2 == 0 && signature[i] == 0x2b
}

/// Whether `signature` encodes a number of bytes that no SHA-256 digest has.
pub open spec fn is_ill_sized(signature: Seq<u8>) -> bool {
    &&& is_sha256(signature)
    &&& (signature.len() - 7) % 2 == 0
    &&& signature.len() - 7 != 64
    &&& forall|i: int| 7 <= i < signature.len() ==> #[trigger] is_encoding(signature, i)
}

/// Whether these headers give a message id, a timestamp, and a signature of a size that no signature
/// has.
pub open spec fn has_ill_sized_signature(headers: Map<Seq<char>, Seq<u8>>) -> bool {
    &&& headers.contains_key(message_id_header())
    &&& headers.contains_key(timestamp_header())
    &&& headers.contains_key(signature_header())
    &&& is_ill_sized(headers[signature_header()])
}

/// Whether a request carries the signature that `sign_secret` gives its message id, its timestamp
/// and its body.
pub uninterp spec fn payload_verified(
    headers: Map<Seq<char>, Seq<u8>>,
    body: Seq<u8>,
    sign_secret: Seq<char>,
) -> bool;

/// Calls `twitch_api::eventsub::Event::verify_payload`, which panics on an ill-sized signature.
/// Trusted: whether it finds the signature right depends on the headers, the body and the secret
/// alone, and it never does where the message id, the timestamp or the signature is missing.
#[verifier::external_body]
fn verify_payload(headers: &HeaderMap, body: &Vec<u8>, sign_secret: &str) -> (verified: bool)
    requires
        !has_ill_sized_signature(header_values(*headers)),
    ensures
        verified == payload_verified(header_values(*headers), body@, sign_secret@),
        verified ==> header_values(*headers).contains_key(message_id_header()),
        verified ==> header_values(*headers).contains_key(timestamp_header()),
        verified ==> header_values(*headers).contains_key(signature_header()),
{
    let mut request = HttpRequest::new(body.as_slice());
    *request.headers_mut() = headers.clone();
    Event::verify_payload(&request, sign_secret.as_bytes())
}

/// Whether the signature among `headers` is of a size that no signature has.
fn ill_sized_signature(headers: &HeaderMap) -> (ill_sized: bool)
    ensures
        ill_sized == has_ill_sized_signature(header_values(*headers)),
{
    if header(headers, "Twitch-Eventsub-Message-Id").is_none()
        || header(headers, "Twitch-Eventsub-Message-Timestamp").is_none() {
        return false;
    }
    match header(headers, "Twitch-Eventsub-Message-Signature") {
        Some(signature) => ill_sized(&signature),
        None => false,
    }
}

/// Whether `signature` encodes a number of bytes that no SHA-256 digest has.
fn ill_sized(signature: &Vec<u8>) -> (ill_sized: bool)
    ensures
        ill_sized == is_ill_sized(signature@),
{
    if signature.len() < 7 {
        return false;
    }
    let starts_right = signature[0] == 0x73 && signature[1] == 0x68 && signature[2] == 0x61 && signature[3]
        == 0x32 && signature[4] == 0x35 && signature[5] == 0x36 && signature[6] == 0x3d;
    proof {
        let name = seq![0x73u8, 0x68, 0x61, 0x32, 0x35, 0x36, 0x3d];
        if starts_right {
            assert(signature@.take(7) =~= name);
        } else if signature@.take(7) == name {
            assert forall|i: int| 0 <= i < 7 implies #[trigger] signature@[i] == name[i] by {
                assert(signature@.take(7)[i] == name[i]);
            }
        }
    }
    if !starts_right || (signature.len() - 7) % 2 != 0 || signature.len() - 7 == 64 {
        return false;
    }
    let mut i: usize = 7;
    while i < signature.len()
        invariant
            7 <= i <= signature.len(),
            forall|j: int| 7 <= j < i ==> #[trigger] is_encoding(signature@, j),
        decreases signature.len() - i,
    {
        let b = signature[i];
        let hex = (0x30 <= b && b <= 0x39) || (0x41 <= b && b <= 0x46) || (0x61 <= b && b <= 0x66);
        if !hex && !((i - 7) % 2 == 0 && b == 0x2b) {
            assert(!is_encoding(signature@, i as int));
            return false;
        }
        i = i + 1;
    }
    true
}

/// A request whose signature was found right.
pub struct Reception {
    headers: HeaderMap,
    body: Vec<u8>,
    sign_secret: Ghost<Seq<char>>,
}

/// What a [`Reception`] holds: the headers and the body of the request, and the secret that it was
/// verified with.
pub struct ReceptionView {
    pub headers: Map<Seq<char>, Seq<u8>>,
    pub body: Seq<u8>,
    pub sign_secret: Seq<char>,
}

impl ReceptionView {
    /// Whether the request carries the right signature.
    pub open spec fn is_authentic(self) -> bool {
        &&& !has_ill_sized_signature(self.headers)
        &&& payload_verified(self.headers, self.body, self.sign_secret)
        &&& self.headers.contains_key(message_id_header())
    }
}

impl View for Reception {
    type V = ReceptionView;

    closed spec fn view(&self) -> ReceptionView {
        ReceptionView {
            headers: header_values(self.headers),
            body: self.body@,
            sign_secret: self.sign_secret@,
        }
    }
}

impl Reception {
    #[verifier::type_invariant]
    spec fn verified(self) -> bool {
        self@.is_authentic()
    }
}

/// How far the handling of a request has come.
pub enum Progress {
    /// The head of the request is there; `size` is the most that its body can hold, if that is
    /// known.
    Head { size: Option<u64> },
    /// The body was read, or could not be.
    Body { headers: HeaderMap, body: Option<Vec<u8>> },
    /// The message id was looked up among those remembered.
    LookedUp { reception: Reception, seen: bool },
    /// The message id is remembered from now on.
    Remembered { reception: Reception },
    /// The stream that went online was passed on; `sent` is whether someone is there to receive it.
    Notified { sent: bool },
}

/// What a [`Progress`] says.
pub enum ProgressView {
    Head { size: Option<u64> },
    Body { headers: Map<Seq<char>, Seq<u8>>, body: Option<Seq<u8>> },
    LookedUp { reception: ReceptionView, seen: bool },
    Remembered { reception: ReceptionView },
    Notified { sent: bool },
}

impl View for Progress {
    type V = ProgressView;

    open spec fn view(&self) -> ProgressView {
        match self {
            Progress::Head { size } => ProgressView::Head { size: *size },
            Progress::Body { headers, body } => ProgressView::Body {
                headers: header_values(*headers),
                body: match body {
                    Some(body) => Some(body@),
                    None => None,
                },
            },
            Progress::LookedUp { reception, seen } => ProgressView::LookedUp {
                reception: reception@,
                seen: *seen,
            },
            Progress::Remembered { reception } => ProgressView::Remembered { reception: reception@ },
            Progress::Notified { sent } => ProgressView::Notified { sent: *sent },
        }
    }
}

/// What to do next with a request.
pub enum Action {
    /// Read the body.
    ReadBody,
    /// Look up whether the message id `id` is remembered.
    LookUp { id: Vec<u8>, reception: Reception },
    /// Remember the message id `id` for so many milliseconds.
    Remember { id: Vec<u8>, milliseconds: u64, reception: Reception },
    /// Pass on the stream that went online.
    Notify { stream: StreamOnline },
    /// Answer: with a text, or with a status code and a text that say why the request is refused.
    Answer { answer: Result<String, (u16, String)> },
    /// Panic: the signature is of a size that no signature has.
    IllSizedSignature,
    /// Panic: the signature is right, and the event cannot be read.
    Unreadable(PayloadParseError),
    /// Panic, with this message: nobody is there to receive the stream that went online.
    Undeliverable { message: String },
}

/// What an [`Action`] says.
pub enum ActionView {
    ReadBody,
    LookUp { id: Seq<u8>, reception: ReceptionView },
    Remember { id: Seq<u8>, milliseconds: u64, reception: ReceptionView },
    Notify { stream: StreamOnlineView },
    Answer { answer: Result<Seq<char>, (u16, Seq<char>)> },
    IllSizedSignature,
    Unreadable,
    Undeliverable { message: Seq<char> },
}

/// What an answer says.
pub open spec fn answer_text(answer: Result<String, (u16, String)>) -> Result<Seq<char>, (u16, Seq<char>)> {
    match answer {
        Ok(text) => Ok(text@),
        Err((status, text)) => Err((status, text@)),
    }
}

impl View for Action {
    type V = ActionView;

    open spec fn view(&self) -> ActionView {
        match self {
            Action::ReadBody => ActionView::ReadBody,
            Action::LookUp { id, reception } => ActionView::LookUp { id: id@, reception: reception@ },
            Action::Remember { id, milliseconds, reception } => ActionView::Remember {
                id: id@,
                milliseconds: *milliseconds,
                reception: reception@,
            },
            Action::Notify { stream } => ActionView::Notify { stream: stream@ },
            Action::Answer { answer } => ActionView::Answer { answer: answer_text(*answer) },
            Action::IllSizedSignature => ActionView::IllSizedSignature,
            Action::Unreadable(_) => ActionView::Unreadable,
            Action::Undeliverable { message } => ActionView::Undeliverable { message: message@ },
        }
    }
}

/// The refusal of a request.
pub open spec fn refusal(status: u16, text: Seq<char>) -> ActionView {
    ActionView::Answer { answer: Err((status, text)) }
}

/// The acknowledgement of a request: an empty text.
pub open spec fn acknowledgement() -> ActionView {
    ActionView::Answer { answer: Ok(Seq::empty()) }
}

/// Giving up because nobody is there to receive the stream that went online.
pub open spec fn undeliverable() -> ActionView {
    ActionView::Undeliverable { message: "should be able to send to live_notifications channel"@ }
}

/// What to do about an event: the challenge of a verification is the answer to it; a revocation is
/// only acknowledged; a stream that went online is passed on; anything else is acknowledged.
pub open spec fn reply(event: WebhookEventView) -> ActionView {
    match event.challenge {
        Some(challenge) => ActionView::Answer { answer: Ok(challenge) },
        None => match event.stream_online {
            Some(stream) if !event.revocation => ActionView::Notify { stream },
            _ => acknowledgement(),
        },
    }
}

/// What to do about the event in a request.
pub open spec fn delivery(reception: ReceptionView) -> ActionView {
    match webhook_event(reception.headers, reception.body) {
        Some(event) => reply(event),
        None => ActionView::Unreadable,
    }
}

/// What to do next with a request that has come so far.
pub open spec fn next(sign_secret: Seq<char>, progress: ProgressView) -> ActionView {
    match progress {
        ProgressView::Head { size } => if size is Some && size.unwrap() < MAX_ALLOWED_RESPONSE_SIZE {
            ActionView::ReadBody
        } else {
            refusal(BAD_REQUEST, "too big data given"@)
        },
        ProgressView::Body { headers, body: None } => refusal(INTERNAL_SERVER_ERROR, Seq::empty()),
        ProgressView::Body { headers, body: Some(body) } => if has_ill_sized_signature(headers) {
            ActionView::IllSizedSignature
        } else if !payload_verified(headers, body, sign_secret) {
            refusal(BAD_REQUEST, "Invalid signature"@)
        } else {
            ActionView::LookUp {
                id: headers[message_id_header()],
                reception: ReceptionView { headers, body, sign_secret },
            }
        },
        ProgressView::LookedUp { reception, seen } => if seen {
            acknowledgement()
        } else {
            ActionView::Remember {
                id: reception.headers[message_id_header()],
                milliseconds: REMEMBERED_MILLISECONDS,
                reception,
            }
        },
        ProgressView::Remembered { reception } => delivery(reception),
        ProgressView::Notified { sent } => if sent {
            acknowledgement()
        } else {
            undeliverable()
        },
    }
}

/// What to do about an event.
pub fn handle_event(event: WebhookEvent) -> (action: Action)
    ensures
        action@ == reply(event@),
{
    match event.challenge {
        Some(challenge) => Action::Answer { answer: Ok(challenge) },
        None => match event.stream_online {
            Some(stream) => if event.revocation {
                Action::Answer { answer: Ok(String::new()) }
            } else {
                Action::Notify { stream }
            },
            None => Action::Answer { answer: Ok(String::new()) },
        },
    }
}

/// What to do next with a request of Twitch: a request that is too big, cannot be read or is not
/// signed is refused; a message that was seen before is acknowledged and nothing else; any other is
/// remembered, and its event handled.
pub fn twitch_eventsub(sign_secret: &str, progress: Progress) -> (action: Action)
    ensures
        action@ == next(sign_secret@, progress@),
        action matches Action::LookUp { reception, .. } ==> reception@.is_authentic(),
        action matches Action::Remember { reception, .. } ==> reception@.is_authentic(),
        action is Notify ==> (progress@ matches ProgressView::Remembered { reception }
            && reception.is_authentic()),
{
    match progress {
        Progress::Head { size } => match size {
            Some(size) if size < MAX_ALLOWED_RESPONSE_SIZE => Action::ReadBody,
            _ => Action::Answer { answer: Err((BAD_REQUEST, "too big data given".to_string())) },
        },
        Progress::Body { headers, body: None } => Action::Answer {
            answer: Err((INTERNAL_SERVER_ERROR, String::new())),
        },
        Progress::Body { headers, body: Some(body) } => {
            if ill_sized_signature(&headers) {
                return Action::IllSizedSignature;
            }
            if !verify_payload(&headers, &body, sign_secret) {
                return Action::Answer { answer: Err((BAD_REQUEST, "Invalid signature".to_string())) };
            }
            let id = header(&headers, "Twitch-Eventsub-Message-Id").unwrap();
            Action::LookUp { id, reception: Reception { headers, body, sign_secret: Ghost(sign_secret@) } }
        },
        Progress::LookedUp { reception, seen } => {
            proof {
                use_type_invariant(&reception);
            }
            if seen {
                return Action::Answer { answer: Ok(String::new()) };
            }
            let id = header(&reception.headers, "Twitch-Eventsub-Message-Id").unwrap();
            Action::Remember { id, milliseconds: REMEMBERED_MILLISECONDS, reception }
        },
        Progress::Remembered { reception } => {
            proof {
                use_type_invariant(&reception);
            }
            match parse_http(&reception.headers, &reception.body) {
                Ok(event) => handle_event(event),
                Err(error) => Action::Unreadable(error),
            }
        },
        Progress::Notified { sent } => if sent {
            Action::Answer { answer: Ok(String::new()) }
        } else {
            Action::Undeliverable {
                message: "should be able to send to live_notifications channel".to_string(),
            }
        },
    }
}

/// A request that arrives.
pub struct Arrival {
    /// The most that its body can hold, if that is known.
    pub size: Option<u64>,
    /// What each spelling of a header's name gives.
    pub headers: Map<Seq<char>, Seq<u8>>,
    /// What reading its body gives, if it can be read.
    pub body: Option<Seq<u8>>,
}

impl Arrival {
    /// Whether the request is known to be small enough.
    pub open spec fn is_small(self) -> bool {
        self.size is Some && self.size.unwrap() < MAX_ALLOWED_RESPONSE_SIZE
    }

    /// Whether the request is small enough, can be read, and is signed with the secret.
    pub open spec fn is_signed(self, sign_secret: Seq<char>) -> bool {
        &&& self.is_small()
        &&& self.body is Some
        &&& !has_ill_sized_signature(self.headers)
        &&& payload_verified(self.headers, self.body.unwrap(), sign_secret)
    }

    /// The message id of the request.
    pub open spec fn id(self) -> Seq<u8> {
        self.headers[message_id_header()]
    }

    /// The event in the request, if it can be read.
    pub open spec fn event(self) -> Option<WebhookEventView> {
        webhook_event(self.headers, self.body.unwrap())
    }
}

/// How far the handling of a request has come once an action is done, where `remembered` are the
/// message ids that are remembered, and `open` is whether someone is there to receive streams;
/// nothing where the request is done with.
pub open spec fn follow(
    action: ActionView,
    arrival: Arrival,
    remembered: Set<Seq<u8>>,
    open: bool,
) -> Option<ProgressView> {
    match action {
        ActionView::ReadBody => Some(ProgressView::Body { headers: arrival.headers, body: arrival.body }),
        ActionView::LookUp { id, reception } => Some(
            ProgressView::LookedUp { reception, seen: remembered.contains(id) },
        ),
        ActionView::Remember { id, milliseconds, reception } => Some(ProgressView::Remembered { reception }),
        ActionView::Notify { stream } => Some(ProgressView::Notified { sent: open }),
        ActionView::Answer { answer } => None,
        ActionView::IllSizedSignature => None,
        ActionView::Unreadable => None,
        ActionView::Undeliverable { message } => None,
    }
}

/// How many actions the handling of a request has at most ahead of it.
pub open spec fn remaining(progress: ProgressView) -> nat {
    match progress {
        ProgressView::Head { size } => 5,
        ProgressView::Body { headers, body } => 4,
        ProgressView::LookedUp { reception, seen } => 3,
        ProgressView::Remembered { reception } => 2,
        ProgressView::Notified { sent } => 1,
    }
}

/// All that is done with a request from where its handling has come.
pub open spec fn actions_from(
    sign_secret: Seq<char>,
    progress: ProgressView,
    arrival: Arrival,
    remembered: Set<Seq<u8>>,
    open: bool,
) -> Seq<ActionView>
    decreases remaining(progress),
{
    let action = next(sign_secret, progress);
    match follow(action, arrival, remembered, open) {
        Some(progress) => seq![action] + actions_from(sign_secret, progress, arrival, remembered, open),
        None => seq![action],
    }
}

/// All that is done with a request, where `remembered` are the message ids that are remembered, and
/// `open` is whether someone is there to receive streams.
pub open spec fn actions(
    sign_secret: Seq<char>,
    arrival: Arrival,
    remembered: Set<Seq<u8>>,
    open: bool,
) -> Seq<ActionView> {
    actions_from(sign_secret, ProgressView::Head { size: arrival.size }, arrival, remembered, open)
}

/// What is done last with a request: it is answered, or given up.
pub open spec fn outcome(
    sign_secret: Seq<char>,
    arrival: Arrival,
    remembered: Set<Seq<u8>>,
    open: bool,
) -> ActionView {
    actions(sign_secret, arrival, remembered, open).last()
}

/// Whether `id` is remembered on account of one of `actions`.
pub open spec fn remembers(actions: Seq<ActionView>, id: Seq<u8>) -> bool {
    exists|i: int| 0 <= i < actions.len() && (#[trigger] actions[i] matches ActionView::Remember {
        id: remembered,
        milliseconds,
        reception,
    } && remembered == id && milliseconds == REMEMBERED_MILLISECONDS)
}

/// The message ids that are remembered once `actions` are done, as long as none is forgotten.
pub open spec fn remembered_after(remembered: Set<Seq<u8>>, actions: Seq<ActionView>) -> Set<Seq<u8>> {
    Set::new(|id: Seq<u8>| remembered.contains(id) || remembers(actions, id))
}

/// All that is done with a signed request.
pub proof fn lemma_signed_actions(
    sign_secret: Seq<char>,
    arrival: Arrival,
    remembered: Set<Seq<u8>>,
    open: bool,
)
    requires
        arrival.is_signed(sign_secret),
    ensures
        ({
            let reception = ReceptionView {
                headers: arrival.headers,
                body: arrival.body.unwrap(),
                sign_secret,
            };
            let done = seq![ActionView::ReadBody, ActionView::LookUp { id: arrival.id(), reception }];
            let remember = ActionView::Remember {
                id: arrival.id(),
                milliseconds: REMEMBERED_MILLISECONDS,
                reception,
            };
            let sent = if open {
                acknowledgement()
            } else {
                undeliverable()
            };
            actions(sign_secret, arrival, remembered, open) == if remembered.contains(arrival.id()) {
                done.push(acknowledgement())
            } else if delivery(reception) is Notify {
                done.push(remember).push(delivery(reception)).push(sent)
            } else {
                done.push(remember).push(delivery(reception))
            }
        }),
{
    reveal_with_fuel(actions_from, 5);
}

/// A request that is too big, or of unknown size, is refused, whatever else it holds, and nothing else
/// is done.
pub proof fn law_big_requests_are_refused(
    sign_secret: Seq<char>,
    arrival: Arrival,
    remembered: Set<Seq<u8>>,
    open: bool,
)
    requires
        !arrival.is_small(),
    ensures
        actions(sign_secret, arrival, remembered, open) == seq![refusal(BAD_REQUEST, "too big data given"@)],
{
}

/// A request that is not signed with the secret is refused, and nothing else is done but to read it:
/// no message id is looked up or remembered, and nothing is passed on.
pub proof fn law_unsigned_requests_are_refused(
    sign_secret: Seq<char>,
    arrival: Arrival,
    remembered: Set<Seq<u8>>,
    open: bool,
)
    requires
        arrival.is_small(),
        arrival.body is Some,
        !has_ill_sized_signature(arrival.headers),
        !payload_verified(arrival.headers, arrival.body.unwrap(), sign_secret),
    ensures
        actions(sign_secret, arrival, remembered, open) == seq![
            ActionView::ReadBody,
            refusal(BAD_REQUEST, "Invalid signature"@),
        ],
{
    reveal_with_fuel(actions_from, 2);
}

/// A message that is remembered is acknowledged, and nothing is passed on.
pub proof fn law_seen_messages_are_only_acknowledged(
    sign_secret: Seq<char>,
    arrival: Arrival,
    remembered: Set<Seq<u8>>,
    open: bool,
)
    requires
        arrival.is_signed(sign_secret),
        remembered.contains(arrival.id()),
    ensures
        outcome(sign_secret, arrival, remembered, open) == acknowledgement(),
        forall|i: int|
            0 <= i < actions(sign_secret, arrival, remembered, open).len() ==> !(#[trigger] actions(
                sign_secret,
                arrival,
                remembered,
                open,
            )[i] is Notify),
{
    lemma_signed_actions(sign_secret, arrival, remembered, open);
}

/// A signed message is remembered once it was handled, whatever came of it: when it comes again while
/// nothing that was remembered then is forgotten, it is only acknowledged.
pub proof fn law_retries_are_only_acknowledged(
    sign_secret: Seq<char>,
    arrival: Arrival,
    remembered: Set<Seq<u8>>,
    open: bool,
    later: Set<Seq<u8>>,
    still_open: bool,
)
    requires
        arrival.is_signed(sign_secret),
        remembered_after(remembered, actions(sign_secret, arrival, remembered, open)).subset_of(later),
    ensures
        outcome(sign_secret, arrival, later, still_open) == acknowledgement(),
{
    lemma_signed_actions(sign_secret, arrival, remembered, open);
    if !remembered.contains(arrival.id()) {
        let done = actions(sign_secret, arrival, remembered, open);
        assert(done[2] matches ActionView::Remember { id, milliseconds, reception } && id == arrival.id()
            && milliseconds == REMEMBERED_MILLISECONDS);
        assert(remembers(done, arrival.id()));
    }
    assert(remembered_after(remembered, actions(sign_secret, arrival, remembered, open)).contains(
        arrival.id(),
    ));
    law_seen_messages_are_only_acknowledged(sign_secret, arrival, later, still_open);
}

/// The message ids that are remembered once the first `n` of `arrivals` were handled, one after
/// another, as long as none is forgotten; `remembered` were before, and `open` says of each whether
/// someone is there to receive streams.
pub open spec fn memory(
    sign_secret: Seq<char>,
    arrivals: Seq<Arrival>,
    remembered: Set<Seq<u8>>,
    open: Seq<bool>,
    n: int,
) -> Set<Seq<u8>>
    decreases n,
{
    if n <= 0 {
        remembered
    } else {
        let before = memory(sign_secret, arrivals, remembered, open, n - 1);
        remembered_after(before, actions(sign_secret, arrivals[n - 1], before, open[n - 1]))
    }
}

/// What is remembered stays so.
proof fn lemma_memory_grows(
    sign_secret: Seq<char>,
    arrivals: Seq<Arrival>,
    remembered: Set<Seq<u8>>,
    open: Seq<bool>,
    m: int,
    n: int,
    id: Seq<u8>,
)
    requires
        0 <= m <= n,
        memory(sign_secret, arrivals, remembered, open, m).contains(id),
    ensures
        memory(sign_secret, arrivals, remembered, open, n).contains(id),
    decreases n - m,
{
    if m < n {
        lemma_memory_grows(sign_secret, arrivals, remembered, open, m, n - 1, id);
    }
}

/// Of signed requests with the same message id, among any others, at most the first passes a stream
/// on, as long as its id is not forgotten.
pub proof fn law_streams_are_passed_on_once(
    sign_secret: Seq<char>,
    arrivals: Seq<Arrival>,
    remembered: Set<Seq<u8>>,
    open: Seq<bool>,
    i: int,
    j: int,
)
    requires
        0 <= i < j < arrivals.len(),
        open.len() == arrivals.len(),
        arrivals[i].is_signed(sign_secret),
        arrivals[j].is_signed(sign_secret),
        arrivals[i].id() == arrivals[j].id(),
    ensures
        outcome(
            sign_secret,
            arrivals[j],
            memory(sign_secret, arrivals, remembered, open, j),
            open[j],
        ) == acknowledgement(),
        forall|stream: StreamOnlineView|
            !(#[trigger] actions(
                sign_secret,
                arrivals[j],
                memory(sign_secret, arrivals, remembered, open, j),
                open[j],
            ).contains(ActionView::Notify { stream })),
{
    let before = memory(sign_secret, arrivals, remembered, open, i);
    let between = memory(sign_secret, arrivals, remembered, open, i + 1);
    let later = memory(sign_secret, arrivals, remembered, open, j);
    let id = arrivals[i].id();
    lemma_signed_actions(sign_secret, arrivals[i], before, open[i]);
    if !before.contains(id) {
        let done = actions(sign_secret, arrivals[i], before, open[i]);
        assert(done[2] matches ActionView::Remember { id: noted, milliseconds, reception } && noted == id
            && milliseconds == REMEMBERED_MILLISECONDS);
        assert(remembers(done, id));
    }
    assert(between.contains(id));
    lemma_memory_grows(sign_secret, arrivals, remembered, open, i + 1, j, id);
    law_seen_messages_are_only_acknowledged(sign_secret, arrivals[j], later, open[j]);
    assert forall|stream: StreamOnlineView|
        !(#[trigger] actions(sign_secret, arrivals[j], later, open[j]).contains(ActionView::Notify { stream })) by {
        law_streams_are_passed_on(sign_secret, arrivals[j], later, open[j], stream);
    }
}

/// A signed request to verify a subscription, seen for the first time, is answered with its
/// challenge.
pub proof fn law_challenges_are_answered(
    sign_secret: Seq<char>,
    arrival: Arrival,
    remembered: Set<Seq<u8>>,
    open: bool,
    challenge: Seq<char>,
)
    requires
        arrival.is_signed(sign_secret),
        !remembered.contains(arrival.id()),
        arrival.event() matches Some(event) && event.challenge == Some(challenge),
    ensures
        outcome(sign_secret, arrival, remembered, open) == (ActionView::Answer { answer: Ok(challenge) }),
{
    lemma_signed_actions(sign_secret, arrival, remembered, open);
}

/// A signed notice that a subscription was revoked is acknowledged, and nothing is passed on.
pub proof fn law_revocations_are_only_acknowledged(
    sign_secret: Seq<char>,
    arrival: Arrival,
    remembered: Set<Seq<u8>>,
    open: bool,
)
    requires
        arrival.is_signed(sign_secret),
        arrival.event() matches Some(event) && event.challenge is None && event.revocation,
    ensures
        outcome(sign_secret, arrival, remembered, open) == acknowledgement(),
        forall|i: int|
            0 <= i < actions(sign_secret, arrival, remembered, open).len() ==> !(#[trigger] actions(
                sign_secret,
                arrival,
                remembered,
                open,
            )[i] is Notify),
{
    lemma_signed_actions(sign_secret, arrival, remembered, open);
}

/// A stream is passed on exactly when a signed request, seen for the first time, notifies of it.
pub proof fn law_streams_are_passed_on(
    sign_secret: Seq<char>,
    arrival: Arrival,
    remembered: Set<Seq<u8>>,
    open: bool,
    stream: StreamOnlineView,
)
    ensures
        actions(sign_secret, arrival, remembered, open).contains(ActionView::Notify { stream }) <==> {
            &&& arrival.is_signed(sign_secret)
            &&& !remembered.contains(arrival.id())
            &&& arrival.event() matches Some(event)
            &&& event.challenge is None
            &&& !event.revocation
            &&& event.stream_online == Some(stream)
        },
{
    let done = actions(sign_secret, arrival, remembered, open);
    if arrival.is_signed(sign_secret) {
        lemma_signed_actions(sign_secret, arrival, remembered, open);
        if done.len() == 5 {
            assert(done.contains(done[3]));
        }
    } else {
        reveal_with_fuel(actions_from, 2);
    }
}

/// A signed message, seen for the first time, whose event cannot be read is given up, but only after
/// its id was remembered.
pub proof fn law_unreadable_events_are_given_up(
    sign_secret: Seq<char>,
    arrival: Arrival,
    remembered: Set<Seq<u8>>,
    open: bool,
)
    requires
        arrival.is_signed(sign_secret),
        !remembered.contains(arrival.id()),
        arrival.event() is None,
    ensures
        outcome(sign_secret, arrival, remembered, open) == ActionView::Unreadable,
        remembers(actions(sign_secret, arrival, remembered, open).drop_last(), arrival.id()),
{
    lemma_signed_actions(sign_secret, arrival, remembered, open);
    let done = actions(sign_secret, arrival, remembered, open).drop_last();
    assert(done[2] matches ActionView::Remember { id, milliseconds, reception } && id == arrival.id()
        && milliseconds == REMEMBERED_MILLISECONDS);
}

/// Of a signed message, seen for the first time, whose event can be read: where it notifies of a
/// stream, it is acknowledged if someone is there to receive the stream, and given up if not, but
/// only after its id was remembered; any other is answered, whether or not someone is there.
pub proof fn law_only_streams_need_a_receiver(
    sign_secret: Seq<char>,
    arrival: Arrival,
    remembered: Set<Seq<u8>>,
    open: bool,
)
    requires
        arrival.is_signed(sign_secret),
        !remembered.contains(arrival.id()),
        arrival.event() is Some,
    ensures
        ({
            let event = arrival.event().unwrap();
            let last = outcome(sign_secret, arrival, remembered, open);
            if event.challenge is None && !event.revocation && event.stream_online is Some {
                last == if open {
                    acknowledgement()
                } else {
                    undeliverable()
                }
            } else {
                last matches ActionView::Answer { answer: Ok(_) }
            }
        }),
        remembers(actions(sign_secret, arrival, remembered, open).drop_last(), arrival.id()),
{
    lemma_signed_actions(sign_secret, arrival, remembered, open);
    let done = actions(sign_secret, arrival, remembered, open).drop_last();
    assert(done[2] matches ActionView::Remember { id, milliseconds, reception } && id == arrival.id()
        && milliseconds == REMEMBERED_MILLISECONDS);
}

/// A signature of `sha256=` and hexadecimal digits is of a size that no signature has exactly when the
/// digits are even in number, and not 64; so a signature as long as a SHA-256 digest never is.
pub proof fn law_digests_are_sized(digits: Seq<u8>, signature: Seq<u8>)
    requires
        forall|i: int|
            0 <= i < digits.len() ==> 0x30 <= #[trigger] digits[i] <= 0x39 || 0x41 <= digits[i] <= 0x46 || 0x61
                <= digits[i] <= 0x66,
    ensures
        is_ill_sized(seq![0x73u8, 0x68, 0x61, 0x32, 0x35, 0x36, 0x3d] + digits) <==> digits.len() % 2 == 0
            && digits.len() != 64,
        signature.len() == 71 ==> !is_ill_sized(signature),
{
    let name = seq![0x73u8, 0x68, 0x61, 0x32, 0x35, 0x36, 0x3d];
    let whole = name + digits;
    assert(whole.take(7) =~= name);
    assert forall|i: int| 7 <= i < whole.len() implies #[trigger] is_encoding(whole, i) by {
        assert(whole[i] == digits[i - 7]);
    }
}

/// A signature that does not begin with `sha256=`, or that is odd in length behind that, or holds there
/// anything but hexadecimal digits and plus signs, is not of a size that no signature has; nor is one
/// with a plus sign in second place of a pair.
pub proof fn law_other_signatures_are_not_ill_sized(signature: Seq<u8>, i: int)
    requires
        ({
            ||| signature.len() < 7
            ||| signature.take(7) != seq![0x73u8, 0x68, 0x61, 0x32, 0x35, 0x36, 0x3d]
            ||| (signature.len() - 7) % 2 != 0
            ||| {
                &&& 7 <= i < signature.len()
                &&& !(0x30 <= signature[i] <= 0x39 || 0x41 <= signature[i] <= 0x46 || 0x61 <= signature[i]
                    <= 0x66)
                &&& !(signature[i] == 0x2b && (i - 7) % 2 == 0)
            }
        }),
    ensures
        !is_ill_sized(signature),
{
    if 7 <= i < signature.len() && is_ill_sized(signature) {
        assert(is_encoding(signature, i));
    }
}

/// Whether the ill-sized signature counts depends on the three headers of a signed message alone.
pub proof fn law_only_whole_messages_are_ill_sized(headers: Map<Seq<char>, Seq<u8>>)
    ensures
        has_ill_sized_signature(headers) <==> headers.contains_key("Twitch-Eventsub-Message-Id"@)
            && headers.contains_key("Twitch-Eventsub-Message-Timestamp"@) && headers.contains_key(
            "Twitch-Eventsub-Message-Signature"@,
        ) && is_ill_sized(headers["Twitch-Eventsub-Message-Signature"@]),
{
}

/// A request is read exactly when it is known to hold less than 64 KiB; any other is refused as too
/// big; and one that cannot be read is an internal error.
pub proof fn law_small_requests_are_read(
    sign_secret: Seq<char>,
    size: Option<u64>,
    headers: Map<Seq<char>, Seq<u8>>,
)
    ensures
        size is Some && size.unwrap() < 65536 ==> next(sign_secret, ProgressView::Head { size }) is ReadBody,
        size is None || size.unwrap() >= 65536 ==> next(sign_secret, ProgressView::Head { size }) == (
        ActionView::Answer { answer: Err((400u16, "too big data given"@)) }),
        next(sign_secret, ProgressView::Body { headers, body: None }) matches ActionView::Answer {
            answer: Err((status, text)),
        } && status == 500 && text.len() == 0,
{
}

/// A request that was read is looked up, under its own message id, exactly when its signature is the
/// one that the secret gives its headers and its body; one that is signed otherwise is refused, and
/// one with a signature of a size that there is not is given up.
pub proof fn law_signatures_decide(sign_secret: Seq<char>, headers: Map<Seq<char>, Seq<u8>>, body: Seq<u8>)
    ensures
        ({
            let action = next(sign_secret, ProgressView::Body { headers, body: Some(body) });
            if has_ill_sized_signature(headers) {
                action is IllSizedSignature
            } else if payload_verified(headers, body, sign_secret) {
                action matches ActionView::LookUp { id, reception } && id
                    == headers["Twitch-Eventsub-Message-Id"@] && reception.headers == headers && reception.body
                    == body && reception.sign_secret == sign_secret
            } else {
                action == (ActionView::Answer { answer: Err((400u16, "Invalid signature"@)) })
            }
        }),
{
}

/// A message that was looked up is acknowledged with an empty text if it was seen, and otherwise
/// remembered under its own id, for 400 milliseconds.
pub proof fn law_messages_are_remembered(sign_secret: Seq<char>, reception: ReceptionView)
    ensures
        next(sign_secret, ProgressView::LookedUp { reception, seen: true }) matches ActionView::Answer {
            answer: Ok(text),
        } && text.len() == 0,
        next(sign_secret, ProgressView::LookedUp { reception, seen: false }) matches ActionView::Remember {
            id,
            milliseconds,
            reception: kept,
        } && id == reception.headers["Twitch-Eventsub-Message-Id"@] && milliseconds == 400 && kept == reception,
{
}

/// Of a message that is remembered, the event decides: one that cannot be read is given up, a challenge
/// is answered with itself, a stream that went online is passed on as it is unless the event is a
/// revocation, and anything else is acknowledged with an empty text.
pub proof fn law_events_decide(sign_secret: Seq<char>, reception: ReceptionView, event: WebhookEventView)
    ensures
        webhook_event(reception.headers, reception.body) is None ==> next(
            sign_secret,
            ProgressView::Remembered { reception },
        ) is Unreadable,
        webhook_event(reception.headers, reception.body) == Some(event) ==> next(
            sign_secret,
            ProgressView::Remembered { reception },
        ) == reply(event),
        event.challenge matches Some(challenge) ==> reply(event) == (ActionView::Answer { answer: Ok(challenge) }),
        event.challenge is None && !event.revocation && event.stream_online is Some ==> reply(event) == (
        ActionView::Notify { stream: event.stream_online.unwrap() }),
        event.challenge is None && (event.revocation || event.stream_online is None) ==> (reply(event) matches
            ActionView::Answer { answer: Ok(text) } && text.len() == 0),
{
}

/// A stream that was passed on is acknowledged with an empty text if someone was there to receive it,
/// and given up otherwise.
pub proof fn law_receivers_decide(sign_secret: Seq<char>)
    ensures
        next(sign_secret, ProgressView::Notified { sent: true }) matches ActionView::Answer { answer: Ok(text) }
            && text.len() == 0,
        next(sign_secret, ProgressView::Notified { sent: false }) == (ActionView::Undeliverable {
            message: "should be able to send to live_notifications channel"@,
        }),
{
}

/// What is said of the handling of a request, and of what to do with it, is what it holds.
pub proof fn law_handling_says_what_it_holds(progress: Progress, action: Action)
    ensures
        match progress {
            Progress::Head { size } => progress@ matches ProgressView::Head { size: s } && s == size,
            Progress::Body { headers, body } => progress@ matches ProgressView::Body { headers: h, body: b } && h
                == header_values(headers) && (body is None <==> b is None) && (body is Some ==> b == Some(
                body.unwrap()@,
            )),
            Progress::LookedUp { reception, seen } => progress@ matches ProgressView::LookedUp {
                reception: r,
                seen: s,
            } && r == reception@ && s == seen,
            Progress::Remembered { reception } => progress@ matches ProgressView::Remembered { reception: r }
                && r == reception@,
            Progress::Notified { sent } => progress@ matches ProgressView::Notified { sent: s } && s == sent,
        },
        match action {
            Action::ReadBody => action@ is ReadBody,
            Action::LookUp { id, reception } => action@ matches ActionView::LookUp { id: i, reception: r } && i
                == id@ && r == reception@,
            Action::Remember { id, milliseconds, reception } => action@ matches ActionView::Remember {
                id: i,
                milliseconds: m,
                reception: r,
            } && i == id@ && m == milliseconds && r == reception@,
            Action::Notify { stream } => action@ matches ActionView::Notify { stream: s } && s == stream@,
            Action::Answer { answer: Ok(text) } => action@ matches ActionView::Answer { answer: Ok(t) } && t
                == text@,
            Action::Answer { answer: Err((status, text)) } => action@ matches ActionView::Answer {
                answer: Err((s, t)),
            } && s == status && t == text@,
            Action::IllSizedSignature => action@ is IllSizedSignature,
            Action::Unreadable(_) => action@ is Unreadable,
            Action::Undeliverable { message } => action@ matches ActionView::Undeliverable { message: m } && m
                == message@,
        },
{
}

} // verus!
