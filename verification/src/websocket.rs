//! The websocket through which Twitch delivers its events.
use twitch_api::eventsub::PayloadParseError;
use twitch_api::twitch_oauth2::url::{ParseError, Url};
use twitch_api::TWITCH_EVENTSUB_WEBSOCKET_URL;
use vstd::prelude::*;

use crate::collections::StringSet;
use crate::eventsub::{
    parse_websocket, websocket_data, SessionData, SessionDataView, StreamOnline, StreamOnlineView,
    WebsocketData, WebsocketDataView,
};
use crate::registration::{
    create_requests, is_listing, request_views, Request, RequestView, Transport, TransportView,
};
use crate::text::{optional_text, texts};

verus! {

/// Outside type: why a URL could not be read.
#[verifier::external_type_specification]
#[verifier::external_body]
pub struct ExParseError(twitch_api::twitch_oauth2::url::ParseError);

/// The URL that a text gives, written the way that URLs are; nothing where it gives none.
pub uninterp spec fn parsed_url(text: Seq<char>) -> Option<Seq<char>>;

/// Calls `url::Url::parse`. Trusted: which URL it reads, and whether it reads one, depends on `text`
/// alone.
#[verifier::external_body]
fn parse_url(text: &str) -> (url: Result<String, ParseError>)
    ensures
        match url {
            Ok(url) => parsed_url(text@) == Some(url@),
            Err(_) => parsed_url(text@) is None,
        },
{
    Url::parse(text).map(String::from)
}

/// Reads `twitch_api::TWITCH_EVENTSUB_WEBSOCKET_URL`. Trusted: without the feature `mock_api`, which is
/// off, it is the URL given here.
#[verifier::external_body]
fn eventsub_websocket_url() -> (url: String)
    ensures
        url@ == "wss://eventsub.wss.twitch.tv/ws"@,
{
    TWITCH_EVENTSUB_WEBSOCKET_URL.to_string()
}

/// A client of Twitch's websocket.
pub struct WebsocketClient {
    /// The session id of the websocket connection
    session_id: Option<String>,
    /// The user ids of the channels we want to listen to
    subscriptions: StringSet,
    /// The url to use for websocket
    connect_url: String,
    /// How events are to be delivered, once there is a session
    transport: Option<Transport>,
    /// Whether there was a connection yet
    connected: bool,
}

/// What a [`WebsocketClient`] holds.
pub struct WebsocketClientView {
    pub session_id: Option<Seq<char>>,
    pub subscriptions: Set<Seq<char>>,
    pub connect_url: Seq<char>,
    pub transport: Option<TransportView>,
    pub connected: bool,
}

impl View for WebsocketClient {
    type V = WebsocketClientView;

    closed spec fn view(&self) -> WebsocketClientView {
        WebsocketClientView {
            session_id: optional_text(self.session_id),
            subscriptions: self.subscriptions@,
            connect_url: self.connect_url@,
            transport: match self.transport {
                Some(transport) => Some(transport@),
                None => None,
            },
            connected: self.connected,
        }
    }
}

impl WebsocketClientView {
    /// Events are delivered over a websocket session, once there is one.
    pub open spec fn is_consistent(self) -> bool {
        self.transport is Some ==> self.session_id is Some && self.transport.unwrap() is Websocket
    }

    /// The client in the session `id`, which is not used yet.
    pub open spec fn met(self, id: Seq<char>) -> WebsocketClientView {
        WebsocketClientView { session_id: Some(id), ..self }
    }

    /// The client in the session `id`, reachable at `connect_url`.
    pub open spec fn welcomed(self, id: Seq<char>, connect_url: Seq<char>) -> WebsocketClientView {
        WebsocketClientView {
            session_id: Some(id),
            connect_url,
            transport: Some(TransportView::Websocket { session_id: id }),
            ..self
        }
    }

    /// The client once there was a connection.
    pub open spec fn once_connected(self) -> WebsocketClientView {
        WebsocketClientView { connected: true, ..self }
    }

    /// The client with one more subscription.
    pub open spec fn subscribed(self, user_id: Seq<char>) -> WebsocketClientView {
        WebsocketClientView { subscriptions: self.subscriptions.insert(user_id), ..self }
    }
}

/// A message of the websocket.
pub enum Message {
    /// A text.
    Text(String),
    /// The announcement that the websocket closes.
    Close,
    /// Anything else.
    Other,
}

/// What a [`Message`] says.
pub enum MessageView {
    Text(Seq<char>),
    Close,
    Other,
}

impl View for Message {
    type V = MessageView;

    open spec fn view(&self) -> MessageView {
        match self {
            Message::Text(text) => MessageView::Text(text@),
            Message::Close => MessageView::Close,
            Message::Other => MessageView::Other,
        }
    }
}

/// Something that happened.
pub enum Occurrence {
    /// The client begins.
    Begun,
    /// The connection was established.
    Connected,
    /// The connection could not be established.
    NotConnected,
    /// A message came in.
    Received(Message),
    /// The connection was reset without a closing handshake.
    Reset,
    /// The connection failed in another way.
    Broken,
    /// A user subscribed to a channel.
    NewSubscription(String),
    /// Twitch did not do what was asked of it.
    NotAsked,
    /// Nobody is there to receive the stream that went online.
    NotReceived,
}

/// What an [`Occurrence`] says.
pub enum OccurrenceView {
    Begun,
    Connected,
    NotConnected,
    Received(MessageView),
    Reset,
    Broken,
    NewSubscription(Seq<char>),
    NotAsked,
    NotReceived,
}

impl View for Occurrence {
    type V = OccurrenceView;

    open spec fn view(&self) -> OccurrenceView {
        match self {
            Occurrence::Begun => OccurrenceView::Begun,
            Occurrence::Connected => OccurrenceView::Connected,
            Occurrence::NotConnected => OccurrenceView::NotConnected,
            Occurrence::Received(message) => OccurrenceView::Received(message@),
            Occurrence::Reset => OccurrenceView::Reset,
            Occurrence::Broken => OccurrenceView::Broken,
            Occurrence::NewSubscription(user_id) => OccurrenceView::NewSubscription(user_id@),
            Occurrence::NotAsked => OccurrenceView::NotAsked,
            Occurrence::NotReceived => OccurrenceView::NotReceived,
        }
    }
}

/// What to do about it.
pub enum Step {
    /// Nothing.
    Nothing,
    /// Connect to this URL.
    Connect(String),
    /// Pass on the stream that went online.
    Notify(StreamOnline),
    /// Ask this of Twitch, one after another.
    Ask(Vec<Request>),
}

/// What a [`Step`] says.
pub enum StepView {
    Nothing,
    Connect(Seq<char>),
    Notify(StreamOnlineView),
    Ask(Seq<RequestView>),
}

impl View for Step {
    type V = StepView;

    open spec fn view(&self) -> StepView {
        match self {
            Step::Nothing => StepView::Nothing,
            Step::Connect(url) => StepView::Connect(url@),
            Step::Notify(stream) => StepView::Notify(stream@),
            Step::Ask(requests) => StepView::Ask(request_views(requests@)),
        }
    }
}

/// Why the client stops.
pub enum RunError {
    /// The connection could not be established; `again` is whether there was one before.
    NotConnected { again: bool },
    /// The connection failed.
    Broken,
    /// A text message could not be read.
    Unreadable(PayloadParseError),
    /// The URL to connect to from now on could not be read.
    InvalidUrl(ParseError),
    /// A subscription was revoked; with what the server says of it.
    Revoked(String),
    /// The websocket closes.
    Closed,
    /// There is no session to subscribe in.
    Uninitialized,
    /// Twitch did not do what was asked of it.
    NotAsked,
    /// Nobody is there to receive the stream that went online.
    NotReceived,
}

/// What a [`RunError`] says.
pub enum RunErrorView {
    NotConnected { again: bool },
    Broken,
    Unreadable,
    InvalidUrl,
    Revoked(Seq<char>),
    Closed,
    Uninitialized,
    NotAsked,
    NotReceived,
}

impl View for RunError {
    type V = RunErrorView;

    open spec fn view(&self) -> RunErrorView {
        match self {
            RunError::NotConnected { again } => RunErrorView::NotConnected { again: *again },
            RunError::Broken => RunErrorView::Broken,
            RunError::Unreadable(_) => RunErrorView::Unreadable,
            RunError::InvalidUrl(_) => RunErrorView::InvalidUrl,
            RunError::Revoked(metadata) => RunErrorView::Revoked(metadata@),
            RunError::Closed => RunErrorView::Closed,
            RunError::Uninitialized => RunErrorView::Uninitialized,
            RunError::NotAsked => RunErrorView::NotAsked,
            RunError::NotReceived => RunErrorView::NotReceived,
        }
    }
}

impl RunErrorView {
    /// What went wrong, where the client itself found it out.
    pub open spec fn message(self) -> Option<Seq<char>> {
        match self {
            RunErrorView::Revoked(metadata) => Some("got revocation event: "@ + metadata),
            RunErrorView::Closed => Some("websocket closed"@),
            RunErrorView::Uninitialized => Some("tried to add subcription before initialized"@),
            _ => None,
        }
    }

    /// What to say of it, each above what stands before.
    pub open spec fn contexts(self) -> Seq<Seq<char>> {
        match self {
            RunErrorView::NotConnected { again: false } => seq![
                "Can't connect"@,
                "when establishing connection"@,
            ],
            RunErrorView::NotConnected { again: true } => seq![
                "Can't connect"@,
                "when reestablishing connection"@,
            ],
            RunErrorView::Broken => seq!["when getting message"@],
            _ => Seq::empty(),
        }
    }
}

impl RunError {
    /// What to say of it, each above what stands before.
    pub fn contexts(&self) -> (contexts: Vec<String>)
        ensures
            texts(contexts@) == self@.contexts(),
    {
        let mut contexts: Vec<String> = Vec::new();
        match self {
            RunError::NotConnected { again } => {
                contexts.push("Can't connect".to_string());
                contexts.push(
                    if *again {
                        "when reestablishing connection".to_string()
                    } else {
                        "when establishing connection".to_string()
                    },
                );
            },
            RunError::Broken => {
                contexts.push("when getting message".to_string());
            },
            _ => {},
        }
        assert(texts(contexts@) =~= self@.contexts());
        contexts
    }

    /// What went wrong, where the client itself found it out.
    pub fn message(&self) -> (message: Option<String>)
        ensures
            optional_text(message) == self@.message(),
    {
        match self {
            RunError::Revoked(metadata) => Some(
                "got revocation event: ".to_string().concat(metadata.as_str()),
            ),
            RunError::Closed => Some("websocket closed".to_string()),
            RunError::Uninitialized => Some("tried to add subcription before initialized".to_string()),
            _ => None,
        }
    }
}

/// What comes of a call: what to do, or why the client stops.
pub open spec fn outcome(result: Result<Step, RunError>) -> Result<StepView, RunErrorView> {
    match result {
        Ok(step) => Ok(step@),
        Err(error) => Err(error@),
    }
}

/// Whether `step` asks for each of `subscriptions`, once and in any order, over the session `id`.
pub open spec fn asks_for_all(step: StepView, subscriptions: Set<Seq<char>>, id: Seq<char>) -> bool {
    &&& step matches StepView::Ask(requests)
    &&& exists|create: Seq<Seq<char>>|
        {
            &&& requests == #[trigger] create_requests(
                create,
                TransportView::Websocket { session_id: id },
            )
            &&& is_listing(create, subscriptions)
        }
}

/// What comes of a session, where `reconnect_url` is what reading its URL gives, if it gives one.
pub open spec fn begins_session(
    before: WebsocketClientView,
    id: Seq<char>,
    reconnect_url: Option<Option<Seq<char>>>,
    after: WebsocketClientView,
    result: Result<StepView, RunErrorView>,
) -> bool {
    match reconnect_url {
        Some(None) => {
            &&& after == before.met(id)
            &&& result == Err::<StepView, RunErrorView>(RunErrorView::InvalidUrl)
        },
        Some(Some(url)) => {
            &&& after == before.welcomed(id, url)
            &&& result matches Ok(step) && asks_for_all(step, before.subscriptions, id)
        },
        None => {
            &&& after == before.welcomed(id, before.connect_url)
            &&& result matches Ok(step) && asks_for_all(step, before.subscriptions, id)
        },
    }
}

/// What comes of what the server says of a session.
pub open spec fn welcomes(
    before: WebsocketClientView,
    session: SessionDataView,
    after: WebsocketClientView,
    result: Result<StepView, RunErrorView>,
) -> bool {
    begins_session(
        before,
        session.id,
        match session.reconnect_url {
            Some(url) => Some(parsed_url(url)),
            None => None,
        },
        after,
        result,
    )
}

/// What comes of what a text message says.
pub open spec fn handles(
    before: WebsocketClientView,
    data: WebsocketDataView,
    after: WebsocketClientView,
    result: Result<StepView, RunErrorView>,
) -> bool {
    match data {
        WebsocketDataView::Welcome(session) => welcomes(before, session, after, result),
        WebsocketDataView::Reconnect(session) => welcomes(before, session, after, result),
        WebsocketDataView::StreamOnline(stream) => {
            &&& after == before
            &&& result == Ok::<StepView, RunErrorView>(StepView::Notify(stream))
        },
        WebsocketDataView::Revocation(metadata) => {
            &&& after == before
            &&& result == Err::<StepView, RunErrorView>(RunErrorView::Revoked(metadata))
        },
        WebsocketDataView::UnexpectedNotification | WebsocketDataView::Other => {
            &&& after == before
            &&& result == Ok::<StepView, RunErrorView>(StepView::Nothing)
        },
    }
}

/// What comes of a message.
pub open spec fn processes(
    before: WebsocketClientView,
    message: MessageView,
    after: WebsocketClientView,
    result: Result<StepView, RunErrorView>,
) -> bool {
    match message {
        MessageView::Text(text) => match websocket_data(text) {
            Some(data) => handles(before, data, after, result),
            None => {
                &&& after == before
                &&& result == Err::<StepView, RunErrorView>(RunErrorView::Unreadable)
            },
        },
        MessageView::Close => {
            &&& after == before
            &&& result == Err::<StepView, RunErrorView>(RunErrorView::Closed)
        },
        MessageView::Other => {
            &&& after == before
            &&& result == Ok::<StepView, RunErrorView>(StepView::Nothing)
        },
    }
}

/// What comes of an occurrence.
pub open spec fn steps(
    before: WebsocketClientView,
    occurrence: OccurrenceView,
    after: WebsocketClientView,
    result: Result<StepView, RunErrorView>,
) -> bool {
    match occurrence {
        OccurrenceView::Begun => {
            &&& after == before
            &&& result == Ok::<StepView, RunErrorView>(StepView::Connect(before.connect_url))
        },
        OccurrenceView::Connected => {
            &&& after == before.once_connected()
            &&& result == Ok::<StepView, RunErrorView>(StepView::Nothing)
        },
        OccurrenceView::NotConnected => {
            &&& after == before
            &&& result == Err::<StepView, RunErrorView>(RunErrorView::NotConnected { again: before.connected })
        },
        OccurrenceView::NotAsked => {
            &&& after == before
            &&& result == Err::<StepView, RunErrorView>(RunErrorView::NotAsked)
        },
        OccurrenceView::NotReceived => {
            &&& after == before
            &&& result == Err::<StepView, RunErrorView>(RunErrorView::NotReceived)
        },
        OccurrenceView::Received(message) => processes(before, message, after, result),
        OccurrenceView::Reset => {
            &&& after == before
            &&& result == Ok::<StepView, RunErrorView>(StepView::Connect(before.connect_url))
        },
        OccurrenceView::Broken => {
            &&& after == before
            &&& result == Err::<StepView, RunErrorView>(RunErrorView::Broken)
        },
        OccurrenceView::NewSubscription(user_id) => {
            &&& after == before.subscribed(user_id)
            &&& result == if before.subscriptions.contains(user_id) {
                Ok::<StepView, RunErrorView>(StepView::Nothing)
            } else {
                match before.transport {
                    Some(transport) => Ok(
                        StepView::Ask(
                            seq![RequestView::Create { broadcaster_user_id: user_id, transport }],
                        ),
                    ),
                    None => Err(RunErrorView::Uninitialized),
                }
            }
        },
    }
}

impl WebsocketClient {
    #[verifier::type_invariant]
    spec fn consistent(self) -> bool {
        self@.is_consistent()
    }

    /// A client that is to listen to the channels `subscriptions`, and has no session yet.
    pub fn new(subscriptions: StringSet) -> (client: WebsocketClient)
        ensures
            client@ == (WebsocketClientView {
                session_id: None,
                subscriptions: subscriptions@,
                connect_url: "wss://eventsub.wss.twitch.tv/ws"@,
                transport: None,
                connected: false,
            }),
    {
        WebsocketClient {
            session_id: None,
            subscriptions,
            connect_url: eventsub_websocket_url(),
            transport: None,
            connected: false,
        }
    }

    /// The URL to connect to.
    pub fn connect(&self) -> (url: &String)
        ensures
            url@ == self@.connect_url,
    {
        &self.connect_url
    }

    /// What to do about something that happened.
    pub fn run(&mut self, occurrence: Occurrence) -> (result: Result<Step, RunError>)
        ensures
            steps(old(self)@, occurrence@, final(self)@, outcome(result)),
            final(self)@.is_consistent(),
    {
        proof {
            use_type_invariant(&*self);
        }
        match occurrence {
            Occurrence::Begun => Ok(Step::Connect(self.connect_url.clone())),
            Occurrence::Connected => {
                self.connected = true;
                Ok(Step::Nothing)
            },
            Occurrence::NotConnected => Err(RunError::NotConnected { again: self.connected }),
            Occurrence::NotAsked => Err(RunError::NotAsked),
            Occurrence::NotReceived => Err(RunError::NotReceived),
            Occurrence::Received(message) => self.process_message(message),
            Occurrence::Reset => Ok(Step::Connect(self.connect_url.clone())),
            Occurrence::Broken => Err(RunError::Broken),
            Occurrence::NewSubscription(user_id) => {
                let mut subscriptions = StringSet::new();
                std::mem::swap(&mut subscriptions, &mut self.subscriptions);
                let fresh = subscriptions.insert(user_id.clone());
                self.subscriptions = subscriptions;
                if fresh {
                    let request = self.add_subscription(&user_id)?;
                    let mut requests: Vec<Request> = Vec::new();
                    requests.push(request);
                    assert(request_views(requests@) =~= seq![request@]);
                    Ok(Step::Ask(requests))
                } else {
                    assert(old(self)@.subscriptions.insert(user_id@) =~= old(self)@.subscriptions);
                    Ok(Step::Nothing)
                }
            },
        }
    }

    /// What to do about a message.
    pub fn process_message(&mut self, message: Message) -> (result: Result<Step, RunError>)
        ensures
            processes(old(self)@, message@, final(self)@, outcome(result)),
            final(self)@.is_consistent(),
    {
        proof {
            use_type_invariant(&*self);
        }
        match message {
            Message::Text(text) => match parse_websocket(text.as_str()) {
                Ok(data) => self.process_data(data),
                Err(error) => Err(RunError::Unreadable(error)),
            },
            Message::Close => Err(RunError::Closed),
            Message::Other => Ok(Step::Nothing),
        }
    }

    /// What to do about what a text message says.
    pub fn process_data(&mut self, data: WebsocketData) -> (result: Result<Step, RunError>)
        ensures
            handles(old(self)@, data@, final(self)@, outcome(result)),
            final(self)@.is_consistent(),
    {
        proof {
            use_type_invariant(&*self);
        }
        match data {
            WebsocketData::Welcome(session) => self.process_welcome_message(session),
            WebsocketData::Reconnect(session) => self.process_welcome_message(session),
            WebsocketData::StreamOnline(stream) => Ok(Step::Notify(stream)),
            WebsocketData::UnexpectedNotification => Ok(Step::Nothing),
            WebsocketData::Revocation(metadata) => Err(RunError::Revoked(metadata)),
            WebsocketData::Other => Ok(Step::Nothing),
        }
    }

    /// What to do about what the server says of a session: ask for every subscription anew.
    pub fn process_welcome_message(&mut self, data: SessionData) -> (result: Result<Step, RunError>)
        ensures
            welcomes(old(self)@, data@, final(self)@, outcome(result)),
            final(self)@.is_consistent(),
    {
        let reconnect_url = match data.reconnect_url {
            Some(url) => Some(parse_url(url.as_str())),
            None => None,
        };
        self.begin_session(data.id, reconnect_url)
    }

    /// What to do in the session `id`, where `reconnect_url` is what reading its URL gives, if it
    /// gives one.
    pub fn begin_session(
        &mut self,
        id: String,
        reconnect_url: Option<Result<String, ParseError>>,
    ) -> (result: Result<Step, RunError>)
        ensures
            begins_session(
                old(self)@,
                id@,
                match reconnect_url {
                    Some(Ok(url)) => Some(Some(url@)),
                    Some(Err(_)) => Some(None),
                    None => None,
                },
                final(self)@,
                outcome(result),
            ),
            final(self)@.is_consistent(),
    {
        proof {
            use_type_invariant(&*self);
        }
        self.session_id = Some(id.clone());
        match reconnect_url {
            Some(Ok(url)) => {
                self.connect_url = url;
            },
            Some(Err(error)) => {
                return Err(RunError::InvalidUrl(error));
            },
            None => {},
        }
        self.transport = Some(Transport::Websocket { session_id: id });
        let mut requests: Vec<Request> = Vec::new();
        let user_ids = self.subscriptions.items();
        let ghost listed = texts(user_ids@);
        let ghost transport = TransportView::Websocket { session_id: id@ };
        let mut i: usize = 0;
        assert(request_views(requests@) =~= create_requests(listed.take(0), transport));
        while i < user_ids.len()
            invariant
                i <= user_ids.len(),
                listed == texts(user_ids@),
                self@.transport == Some(transport),
                request_views(requests@) == create_requests(listed.take(i as int), transport),
            decreases user_ids.len() - i,
        {
            let ghost before = request_views(requests@);
            let request = self.add_subscription(&user_ids[i])?;
            requests.push(request);
            proof {
                assert(request_views(requests@) =~= before.push(request@));
                assert(listed.take(i + 1) =~= listed.take(i as int).push(listed[i as int]));
                assert(create_requests(listed.take(i + 1), transport) =~= create_requests(
                    listed.take(i as int),
                    transport,
                ).push(request@));
            }
            i = i + 1;
        }
        assert(listed.take(i as int) =~= listed);
        Ok(Step::Ask(requests))
    }

    /// The request to notify when the channel of `user_id` goes online.
    fn add_subscription(&self, user_id: &String) -> (request: Result<Request, RunError>)
        ensures
            match self@.transport {
                Some(transport) => request matches Ok(request) && request@ == (RequestView::Create {
                    broadcaster_user_id: user_id@,
                    transport,
                }),
                None => request matches Err(error) && error@ == RunErrorView::Uninitialized,
            },
    {
        match &self.transport {
            Some(transport) => Ok(
                Request::Create { broadcaster_user_id: user_id.clone(), transport: transport.copy() },
            ),
            None => Err(RunError::Uninitialized),
        }
    }
}

/// The client forgets no subscription, whatever happens, and uses only websocket sessions.
pub proof fn law_subscriptions_are_kept(
    before: WebsocketClientView,
    occurrence: OccurrenceView,
    after: WebsocketClientView,
    result: Result<StepView, RunErrorView>,
)
    requires
        before.is_consistent(),
        steps(before, occurrence, after, result),
    ensures
        before.subscriptions.subset_of(after.subscriptions),
        after.is_consistent(),
{
}

/// Each session that the server tells of, and whose URL can be read, is asked for every
/// subscription, also for those that came before it.
pub proof fn law_sessions_are_asked_for_every_subscription(
    before: WebsocketClientView,
    session: SessionDataView,
    after: WebsocketClientView,
    result: Result<StepView, RunErrorView>,
    user_id: Seq<char>,
)
    requires
        welcomes(before, session, after, result),
        session.reconnect_url is Some ==> parsed_url(session.reconnect_url.unwrap()) is Some,
        before.subscriptions.contains(user_id),
    ensures
        result matches Ok(StepView::Ask(requests)) && requests.contains(
            RequestView::Create {
                broadcaster_user_id: user_id,
                transport: TransportView::Websocket { session_id: session.id },
            },
        ),
{
    let transport = TransportView::Websocket { session_id: session.id };
    let requests = result->Ok_0->Ask_0;
    let create = choose|create: Seq<Seq<char>>|
        {
            &&& requests == #[trigger] create_requests(create, transport)
            &&& is_listing(create, before.subscriptions)
        };
    assert(create.to_set().contains(user_id));
    let i = create.lemma_contains_to_index(user_id);
    assert(requests[i] == RequestView::Create { broadcaster_user_id: user_id, transport });
}

/// A reconnect is handled just as a welcome to the same session is.
pub proof fn law_reconnects_are_handled_as_welcomes(
    before: WebsocketClientView,
    session: SessionDataView,
    after: WebsocketClientView,
    result: Result<StepView, RunErrorView>,
)
    ensures
        handles(before, WebsocketDataView::Reconnect(session), after, result) <==> handles(
            before,
            WebsocketDataView::Welcome(session),
            after,
            result,
        ),
{
}

/// Subscribing to the same channel again asks nothing more of Twitch, and changes nothing.
pub proof fn law_subscribing_again_asks_nothing(
    before: WebsocketClientView,
    user_id: Seq<char>,
    between: WebsocketClientView,
    first: Result<StepView, RunErrorView>,
    after: WebsocketClientView,
    second: Result<StepView, RunErrorView>,
)
    requires
        steps(before, OccurrenceView::NewSubscription(user_id), between, first),
        steps(between, OccurrenceView::NewSubscription(user_id), after, second),
    ensures
        after == between,
        second == Ok::<StepView, RunErrorView>(StepView::Nothing),
{
    assert(between.subscriptions.insert(user_id) =~= between.subscriptions);
}

/// A stream is passed on exactly when a message notifies of it.
pub proof fn law_streams_are_passed_on(
    before: WebsocketClientView,
    occurrence: OccurrenceView,
    after: WebsocketClientView,
    result: Result<StepView, RunErrorView>,
    stream: StreamOnlineView,
)
    requires
        steps(before, occurrence, after, result),
    ensures
        result == Ok::<StepView, RunErrorView>(StepView::Notify(stream)) <==> {
            &&& occurrence matches OccurrenceView::Received(MessageView::Text(text))
            &&& websocket_data(text) == Some(WebsocketDataView::StreamOnline(stream))
        },
{
}

/// The client goes on unless the connection cannot be established, fails or closes, a message or its
/// URL cannot be read, a subscription is revoked, a new one comes before there is a session, Twitch
/// does not do what is asked of it, or nobody is there to receive a stream.
pub proof fn law_client_goes_on(
    before: WebsocketClientView,
    occurrence: OccurrenceView,
    after: WebsocketClientView,
    result: Result<StepView, RunErrorView>,
)
    requires
        steps(before, occurrence, after, result),
    ensures
        result is Err <==> match occurrence {
            OccurrenceView::Begun => false,
            OccurrenceView::Connected => false,
            OccurrenceView::NotConnected => true,
            OccurrenceView::NotAsked => true,
            OccurrenceView::NotReceived => true,
            OccurrenceView::Received(MessageView::Text(text)) => match websocket_data(text) {
                Some(
                    WebsocketDataView::Welcome(session) | WebsocketDataView::Reconnect(session),
                ) => session.reconnect_url is Some && parsed_url(session.reconnect_url.unwrap()) is None,
                Some(WebsocketDataView::Revocation(_)) => true,
                Some(_) => false,
                None => true,
            },
            OccurrenceView::Received(MessageView::Close) => true,
            OccurrenceView::Received(MessageView::Other) => false,
            OccurrenceView::Reset => false,
            OccurrenceView::Broken => true,
            OccurrenceView::NewSubscription(user_id) => !before.subscriptions.contains(user_id)
                && before.transport is None,
        },
{
}

/// Whether something can happen next, where this came of what happened before: a connection is
/// established, or not; what is asked of Twitch can fail, and so can passing on a stream; and after an
/// error nothing happens any more.
pub open spec fn can_follow(result: Result<StepView, RunErrorView>, occurrence: OccurrenceView) -> bool {
    let taken = occurrence is Received || occurrence is Reset || occurrence is Broken
        || occurrence is NewSubscription;
    match result {
        Ok(StepView::Connect(_)) => occurrence is Connected || occurrence is NotConnected,
        Ok(StepView::Ask(_)) => taken || occurrence is NotAsked,
        Ok(StepView::Notify(_)) => taken || occurrence is NotReceived,
        Ok(StepView::Nothing) => taken,
        Err(_) => false,
    }
}

/// Whether what happens at `i`, and what comes of it, is as it should be.
pub open spec fn is_client_step(
    clients: Seq<WebsocketClientView>,
    occurrences: Seq<OccurrenceView>,
    results: Seq<Result<StepView, RunErrorView>>,
    i: int,
) -> bool {
    &&& steps(clients[i], occurrences[i], clients[i + 1], results[i])
    &&& if i == 0 {
        occurrences[i] == OccurrenceView::Begun
    } else {
        can_follow(results[i - 1], occurrences[i])
    }
}

/// Whether `results` is what comes of `occurrences`, one after another, from the beginning of a new
/// client.
pub open spec fn is_client_run(
    clients: Seq<WebsocketClientView>,
    occurrences: Seq<OccurrenceView>,
    results: Seq<Result<StepView, RunErrorView>>,
) -> bool {
    &&& occurrences.len() == results.len()
    &&& clients.len() == results.len() + 1
    &&& !clients[0].connected
    &&& forall|i: int| 0 <= i < results.len() ==> #[trigger] is_client_step(clients, occurrences, results, i)
}

/// A client is connected at once, or ends.
proof fn lemma_connected(
    clients: Seq<WebsocketClientView>,
    occurrences: Seq<OccurrenceView>,
    results: Seq<Result<StepView, RunErrorView>>,
    i: int,
)
    requires
        is_client_run(clients, occurrences, results),
        0 <= i < results.len(),
    ensures
        i < 2 ==> !clients[i].connected,
        i >= 2 ==> clients[i].connected,
    decreases i,
{
    if i > 0 {
        lemma_connected(clients, occurrences, results, i - 1);
        assert(is_client_step(clients, occurrences, results, 0));
        assert(is_client_step(clients, occurrences, results, i - 1));
        assert(is_client_step(clients, occurrences, results, i));
    }
}

/// The client ends only by an error. The first thing it does is to connect, and where that fails it
/// ends there, before it takes any message or new subscription, with an error that says so; a later
/// connection that fails is one that was to be reestablished after a reset, and is told apart; and the
/// connection is said to be broken exactly when it fails in another way.
pub proof fn law_client_ends_only_by_an_error(
    clients: Seq<WebsocketClientView>,
    occurrences: Seq<OccurrenceView>,
    results: Seq<Result<StepView, RunErrorView>>,
    i: int,
)
    requires
        is_client_run(clients, occurrences, results),
        0 <= i < results.len(),
    ensures
        results[0] == Ok::<StepView, RunErrorView>(StepView::Connect(clients[0].connect_url)),
        results[i] is Err ==> i == results.len() - 1,
        results[i] == Err::<StepView, RunErrorView>(RunErrorView::NotConnected { again: false }) <==> i == 1
            && occurrences[i] is NotConnected,
        results[i] == Err::<StepView, RunErrorView>(RunErrorView::NotConnected { again: true }) <==> i > 1
            && occurrences[i] is NotConnected,
        i > 1 && occurrences[i] is NotConnected ==> occurrences[i - 1] is Reset,
        i > 1 ==> occurrences[1] is Connected,
        results[i] == Err::<StepView, RunErrorView>(RunErrorView::Broken) <==> occurrences[i] is Broken,
{
    assert(is_client_step(clients, occurrences, results, 0));
    assert(is_client_step(clients, occurrences, results, i));
    lemma_connected(clients, occurrences, results, i);
    if results.len() > 1 {
        assert(is_client_step(clients, occurrences, results, 1));
    }
    if results.len() > 2 {
        assert(is_client_step(clients, occurrences, results, 2));
    }
    if i > 0 {
        assert(is_client_step(clients, occurrences, results, i - 1));
    }
    if i > 1 {
        assert(is_client_step(clients, occurrences, results, i - 2));
    }
    if i + 1 < results.len() {
        assert(is_client_step(clients, occurrences, results, i + 1));
    }
}

/// Once the server has given another URL, a reset connection is reestablished there.
pub proof fn law_resets_reconnect_to_the_given_url(
    before: WebsocketClientView,
    session: SessionDataView,
    between: WebsocketClientView,
    first: Result<StepView, RunErrorView>,
    after: WebsocketClientView,
    second: Result<StepView, RunErrorView>,
)
    requires
        welcomes(before, session, between, first),
        steps(between, OccurrenceView::Reset, after, second),
        session.reconnect_url is Some,
        parsed_url(session.reconnect_url.unwrap()) is Some,
    ensures
        second == Ok::<StepView, RunErrorView>(
            StepView::Connect(parsed_url(session.reconnect_url.unwrap()).unwrap()),
        ),
{
}

/// A channel that a user newly subscribes to is asked for by exactly one request, over the transport
/// of the present session, whether or not the client was connected by then; without a session that is
/// an error; and a channel that is subscribed to already is not asked for. Whichever it is, the channel
/// is subscribed to from then on, every other exactly when it was before, and nothing else changes.
pub proof fn law_new_subscriptions_are_asked_for(
    before: WebsocketClientView,
    user_id: Seq<char>,
    after: WebsocketClientView,
    result: Result<StepView, RunErrorView>,
)
    requires
        steps(before, OccurrenceView::NewSubscription(user_id), after, result),
    ensures
        !before.subscriptions.contains(user_id) && before.transport is Some ==> {
            &&& result matches Ok(StepView::Ask(requests))
            &&& requests.len() == 1
            &&& requests[0] matches RequestView::Create { broadcaster_user_id, transport }
            &&& broadcaster_user_id == user_id
            &&& transport == before.transport.unwrap()
        },
        !before.subscriptions.contains(user_id) && before.transport is None ==> result == Err::<
            StepView,
            RunErrorView,
        >(RunErrorView::Uninitialized),
        before.subscriptions.contains(user_id) ==> result == Ok::<StepView, RunErrorView>(StepView::Nothing),
        after.subscriptions.contains(user_id),
        forall|other: Seq<char>|
            other != user_id ==> (#[trigger] after.subscriptions.contains(other) <==> before.subscriptions.contains(
                other,
            )),
        after.session_id == before.session_id,
        after.connect_url == before.connect_url,
        after.transport == before.transport,
        after.connected == before.connected,
{
}

/// What happens to the connection changes nothing but whether there was one: to begin with, and after a
/// reset, the client connects to its URL; a connection lets it go on; and it stops when there is none,
/// when it breaks, when a request fails and when nobody receives a stream, with the error that says so.
pub proof fn law_connections_are_kept_up(
    before: WebsocketClientView,
    occurrence: OccurrenceView,
    after: WebsocketClientView,
    result: Result<StepView, RunErrorView>,
)
    requires
        steps(before, occurrence, after, result),
        !(occurrence is Received),
        !(occurrence is NewSubscription),
    ensures
        after.session_id == before.session_id,
        after.subscriptions == before.subscriptions,
        after.connect_url == before.connect_url,
        after.transport == before.transport,
        after.connected == (before.connected || occurrence is Connected),
        occurrence is Begun || occurrence is Reset ==> (result matches Ok(StepView::Connect(url)) && url
            == before.connect_url),
        occurrence is Connected ==> (result matches Ok(step) && step is Nothing),
        occurrence is NotConnected ==> (result matches Err(RunErrorView::NotConnected { again }) && again
            == before.connected),
        occurrence is Broken ==> (result matches Err(error) && error is Broken),
        occurrence is NotAsked ==> (result matches Err(error) && error is NotAsked),
        occurrence is NotReceived ==> (result matches Err(error) && error is NotReceived),
{
}

/// A session that begins is the present one from then on, and its URL, if it gives one, is the one to
/// connect to; each subscription is asked for in it by one request, and nothing else is. Where its URL
/// cannot be read the client stops, and goes by what it went by before.
pub proof fn law_sessions_begin(
    before: WebsocketClientView,
    id: Seq<char>,
    reconnect_url: Option<Option<Seq<char>>>,
    after: WebsocketClientView,
    result: Result<StepView, RunErrorView>,
)
    requires
        begins_session(before, id, reconnect_url, after, result),
    ensures
        after.session_id == Some(id),
        after.subscriptions == before.subscriptions,
        after.connected == before.connected,
        reconnect_url == Some(None::<Seq<char>>) ==> {
            &&& result matches Err(error)
            &&& error is InvalidUrl
            &&& after.connect_url == before.connect_url
            &&& after.transport == before.transport
        },
        reconnect_url != Some(None::<Seq<char>>) ==> {
            &&& reconnect_url is None ==> after.connect_url == before.connect_url
            &&& reconnect_url matches Some(Some(url)) ==> after.connect_url == url
            &&& after.transport matches Some(TransportView::Websocket { session_id })
            &&& session_id == id
            &&& result matches Ok(StepView::Ask(requests))
            &&& requests.len() == before.subscriptions.len()
            &&& requests.no_duplicates()
            &&& forall|i: int|
                0 <= i < requests.len() ==> (#[trigger] requests[i] matches RequestView::Create {
                    broadcaster_user_id,
                    transport,
                } && before.subscriptions.contains(broadcaster_user_id) && transport
                    == TransportView::Websocket { session_id: id })
            &&& forall|user_id: Seq<char>| #[trigger]
                before.subscriptions.contains(user_id) ==> requests.contains(
                    RequestView::Create {
                        broadcaster_user_id: user_id,
                        transport: TransportView::Websocket { session_id: id },
                    },
                )
        },
{
    if reconnect_url != Some(None::<Seq<char>>) {
        let transport = TransportView::Websocket { session_id: id };
        let requests = result->Ok_0->Ask_0;
        let create = choose|create: Seq<Seq<char>>|
            {
                &&& requests == #[trigger] create_requests(create, transport)
                &&& is_listing(create, before.subscriptions)
            };
        create.unique_seq_to_set();
        assert forall|i: int| 0 <= i < requests.len() implies (#[trigger] requests[i] matches
            RequestView::Create { broadcaster_user_id, transport: over } && before.subscriptions.contains(
            broadcaster_user_id,
        ) && over == transport) by {
            assert(create.contains(create[i]));
            assert(create.to_set().contains(create[i]));
        }
        assert forall|i: int, j: int| 0 <= i < requests.len() && 0 <= j < requests.len() && i != j implies
            requests[i] != requests[j] by {
            assert(create[i] != create[j]);
        }
        assert forall|user_id: Seq<char>| #[trigger] before.subscriptions.contains(user_id) implies requests.contains(
            RequestView::Create { broadcaster_user_id: user_id, transport }) by {
            assert(create.to_set().contains(user_id));
            let i = create.lemma_contains_to_index(user_id);
            assert(requests[i] == RequestView::Create { broadcaster_user_id: user_id, transport });
        }
    }
}

/// What the server says of a session begins it, under the id and with the URL that it gives.
pub proof fn law_welcomes_begin_their_session(
    before: WebsocketClientView,
    session: SessionDataView,
    after: WebsocketClientView,
    result: Result<StepView, RunErrorView>,
)
    ensures
        session.reconnect_url is None ==> (welcomes(before, session, after, result) <==> begins_session(
            before,
            session.id,
            None,
            after,
            result,
        )),
        session.reconnect_url matches Some(url) ==> (welcomes(before, session, after, result)
            <==> begins_session(before, session.id, Some(parsed_url(url)), after, result)),
{
}

/// Of a text message, a welcome and a reconnect alike are what the server says of a session; a stream
/// that went online is passed on as it is; a revocation stops the client, with what is said of it; and
/// nothing comes of anything else. Only a session changes the client.
pub proof fn law_data_decides(
    before: WebsocketClientView,
    data: WebsocketDataView,
    after: WebsocketClientView,
    result: Result<StepView, RunErrorView>,
)
    requires
        handles(before, data, after, result),
    ensures
        data matches WebsocketDataView::Welcome(session) ==> welcomes(before, session, after, result),
        data matches WebsocketDataView::Reconnect(session) ==> welcomes(before, session, after, result),
        !(data is Welcome) && !(data is Reconnect) ==> after == before,
        data matches WebsocketDataView::StreamOnline(stream) ==> (result matches Ok(StepView::Notify(passed))
            && passed == stream),
        data matches WebsocketDataView::Revocation(metadata) ==> (result matches Err(
            RunErrorView::Revoked(said),
        ) && said == metadata),
        data is UnexpectedNotification || data is Other ==> (result matches Ok(step) && step is Nothing),
{
}

/// Of a message, a text decides by what it says, and stops the client where it cannot be read; the
/// announcement that the websocket closes stops it too; and nothing comes of anything else.
pub proof fn law_messages_decide(
    before: WebsocketClientView,
    message: MessageView,
    after: WebsocketClientView,
    result: Result<StepView, RunErrorView>,
)
    requires
        processes(before, message, after, result),
    ensures
        message matches MessageView::Text(text) ==> (websocket_data(text) matches Some(data) ==> handles(
            before,
            data,
            after,
            result,
        )),
        message matches MessageView::Text(text) ==> (websocket_data(text) is None ==> after == before && (
        result matches Err(error) && error is Unreadable)),
        message is Close ==> after == before && (result matches Err(error) && error is Closed),
        message is Other ==> after == before && (result matches Ok(step) && step is Nothing),
{
}

/// What comes of a message that came in is what comes of the message.
pub proof fn law_received_messages_are_processed(
    before: WebsocketClientView,
    message: MessageView,
    after: WebsocketClientView,
    result: Result<StepView, RunErrorView>,
)
    ensures
        steps(before, OccurrenceView::Received(message), after, result) <==> processes(
            before,
            message,
            after,
            result,
        ),
{
}

/// A revocation is told of with all that the server says of it.
pub proof fn law_revocations_are_told_of(metadata: Seq<char>)
    ensures
        RunErrorView::Revoked(metadata).message() matches Some(text) && text.len() == 22 + metadata.len()
            && text.take(22) == "got revocation event: "@ && text.skip(22) == metadata,
{
    reveal_strlit("got revocation event: ");
    let text = "got revocation event: "@ + metadata;
    assert(text.take(22) =~= "got revocation event: "@);
    assert(text.skip(22) =~= metadata);
}

/// What is said of messages and occurrences is what they hold.
pub proof fn law_occurrences_say_what_they_hold(message: Message, occurrence: Occurrence)
    ensures
        match message {
            Message::Text(text) => message@ matches MessageView::Text(t) && t == text@,
            Message::Close => message@ is Close,
            Message::Other => message@ is Other,
        },
        match occurrence {
            Occurrence::Begun => occurrence@ is Begun,
            Occurrence::Connected => occurrence@ is Connected,
            Occurrence::NotConnected => occurrence@ is NotConnected,
            Occurrence::Received(message) => occurrence@ matches OccurrenceView::Received(m) && m == message@,
            Occurrence::Reset => occurrence@ is Reset,
            Occurrence::Broken => occurrence@ is Broken,
            Occurrence::NewSubscription(user_id) => occurrence@ matches OccurrenceView::NewSubscription(u) && u
                == user_id@,
            Occurrence::NotAsked => occurrence@ is NotAsked,
            Occurrence::NotReceived => occurrence@ is NotReceived,
        },
{
}

/// What is said of steps and errors is what they hold.
pub proof fn law_steps_say_what_they_hold(step: Step, error: RunError)
    ensures
        match step {
            Step::Nothing => step@ is Nothing,
            Step::Connect(url) => step@ matches StepView::Connect(u) && u == url@,
            Step::Notify(stream) => step@ matches StepView::Notify(s) && s == stream@,
            Step::Ask(requests) => step@ matches StepView::Ask(r) && r == request_views(requests@),
        },
        match error {
            RunError::NotConnected { again } => error@ matches RunErrorView::NotConnected { again: a } && a
                == again,
            RunError::Broken => error@ is Broken,
            RunError::Unreadable(_) => error@ is Unreadable,
            RunError::InvalidUrl(_) => error@ is InvalidUrl,
            RunError::Revoked(metadata) => error@ matches RunErrorView::Revoked(m) && m == metadata@,
            RunError::Closed => error@ is Closed,
            RunError::Uninitialized => error@ is Uninitialized,
            RunError::NotAsked => error@ is NotAsked,
            RunError::NotReceived => error@ is NotReceived,
        },
        outcome(Ok(step)) == Ok::<StepView, RunErrorView>(step@),
        outcome(Err(error)) == Err::<StepView, RunErrorView>(error@),
{
}

} // verus!
