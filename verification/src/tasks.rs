//! The tasks that run beside the webhook's server: checking what is registered, passing on new
//! subscriptions, and replacing the token.
use vstd::prelude::*;

use crate::collections::StringMap;
use crate::registration::{
    create_requests, delete_requests, is_listing, is_named, is_round, law_pages_are_noted_in_turn,
    note_listing, request_views, with_listing, EventSubSubscription, Request, RequestView, CHECK_INTERVAL_SECONDS,
    INITIAL_DELAY_SECONDS,
};
use crate::setup::{Settings, SettingsView, Webhook, WebhookView};
use crate::text::{optional_text, texts};
use crate::users::{keys, mapping_views, streamers, Mapping, MappingView};
use crate::webhook::{
    actions, has_ill_sized_signature, law_unsigned_requests_are_refused, lemma_signed_actions,
    payload_verified, ActionView, Arrival, ReceptionView,
};

verus! {

/// How long before a token expires it is replaced, in seconds.
pub const REFRESH_MARGIN_SECONDS: u64 = 20;

/// What comes of asking for more of the subscriptions that are registered.
pub enum Page {
    /// Some more.
    Listed(Vec<EventSubSubscription>),
    /// There are no more.
    End,
    /// The request failed.
    Failed,
}

/// What a [`Page`] says.
pub enum PageView {
    Listed(Seq<EventSubSubscription>),
    End,
    Failed,
}

impl View for Page {
    type V = PageView;

    open spec fn view(&self) -> PageView {
        match self {
            Page::Listed(listed) => PageView::Listed(listed@),
            Page::End => PageView::End,
            Page::Failed => PageView::Failed,
        }
    }
}

/// How far the checks have come; `due` is when the present one was due, in seconds since they were
/// begun.
pub enum Checking {
    /// They begin.
    Begun,
    /// It is time for a check.
    Due { due: u64 },
    /// Twitch was asked for more of the subscriptions that are registered; `existing` are those
    /// noted before.
    Listed { due: u64, existing: StringMap, page: Page },
    /// Who subscribed to whom was looked up, or could not be.
    Queried { due: u64, existing: StringMap, entries: Option<Vec<Mapping>> },
    /// Something was asked of Twitch; `done` is whether it did it, and `rest` is to be asked next.
    Asked { due: u64, rest: Vec<Request>, done: bool },
}

/// What a [`Checking`] says.
pub enum CheckingView {
    Begun,
    Due { due: u64 },
    Listed { due: u64, existing: Map<Seq<char>, Seq<char>>, page: PageView },
    Queried { due: u64, existing: Map<Seq<char>, Seq<char>>, entries: Option<Seq<MappingView>> },
    Asked { due: u64, rest: Seq<RequestView>, done: bool },
}

impl View for Checking {
    type V = CheckingView;

    open spec fn view(&self) -> CheckingView {
        match self {
            Checking::Begun => CheckingView::Begun,
            Checking::Due { due } => CheckingView::Due { due: *due },
            Checking::Listed { due, existing, page } => CheckingView::Listed {
                due: *due,
                existing: existing@,
                page: page@,
            },
            Checking::Queried { due, existing, entries } => CheckingView::Queried {
                due: *due,
                existing: existing@,
                entries: match entries {
                    Some(entries) => Some(mapping_views(entries@)),
                    None => None,
                },
            },
            Checking::Asked { due, rest, done } => CheckingView::Asked {
                due: *due,
                rest: request_views(rest@),
                done: *done,
            },
        }
    }
}

impl CheckingView {
    /// When the present check was due.
    pub open spec fn due(self) -> u64 {
        match self {
            CheckingView::Begun => 0,
            CheckingView::Due { due } => due,
            CheckingView::Listed { due, existing, page } => due,
            CheckingView::Queried { due, existing, entries } => due,
            CheckingView::Asked { due, rest, done } => due,
        }
    }

    /// Whether something failed: a request for what is registered, a query of the database, or a
    /// request to create or drop a subscription; or a subscription at `website` names no broadcaster.
    pub open spec fn has_failed(self, website: Seq<char>) -> bool {
        match self {
            CheckingView::Begun => false,
            CheckingView::Due { due } => false,
            CheckingView::Listed { due, existing, page: PageView::Listed(listed) } => !is_named(listed, website),
            CheckingView::Listed { due, existing, page: PageView::End } => false,
            CheckingView::Listed { due, existing, page: PageView::Failed } => true,
            CheckingView::Queried { due, existing, entries } => entries is None,
            CheckingView::Asked { due, rest, done } => !done,
        }
    }
}

/// Why the checks end.
#[derive(Debug, Clone, Copy, PartialEq, Eq, Structural)]
pub enum CheckError {
    /// What is registered could not be listed.
    Listing,
    /// A subscription to a stream's going online names no broadcaster.
    MissingBroadcaster,
    /// Who subscribed to whom could not be looked up.
    Query,
    /// Twitch did not do what was asked of it.
    Request,
}

impl CheckError {
    /// What to say of it, above what failed.
    pub open spec fn spec_context(self) -> Option<Seq<char>> {
        match self {
            CheckError::MissingBroadcaster => Some("stream.online did not contain broadcaster"@),
            CheckError::Request => Some("when registering online event"@),
            _ => None,
        }
    }

    /// What to say of it, above what failed.
    pub fn context(self) -> (context: Option<String>)
        ensures
            optional_text(context) == self.spec_context(),
    {
        match self {
            CheckError::MissingBroadcaster => Some("stream.online did not contain broadcaster".to_string()),
            CheckError::Request => Some("when registering online event".to_string()),
            _ => None,
        }
    }
}

/// What the checks do next.
pub enum CheckAction {
    /// Wait until `due` seconds have passed since the checks were begun; not at all, if they have.
    WaitUntil { due: u64 },
    /// Ask for more of the enabled subscriptions that are registered.
    List { due: u64, existing: StringMap },
    /// Look up who subscribed to whom.
    Query { due: u64, existing: StringMap },
    /// Ask `request` of Twitch.
    Ask { due: u64, request: Request, rest: Vec<Request> },
    /// End, with this error.
    Stop { error: CheckError },
}

/// What a [`CheckAction`] says.
pub enum CheckActionView {
    WaitUntil { due: u64 },
    List { due: u64, existing: Map<Seq<char>, Seq<char>> },
    Query { due: u64, existing: Map<Seq<char>, Seq<char>> },
    Ask { due: u64, request: RequestView, rest: Seq<RequestView> },
    Stop { error: CheckError },
}

impl View for CheckAction {
    type V = CheckActionView;

    open spec fn view(&self) -> CheckActionView {
        match self {
            CheckAction::WaitUntil { due } => CheckActionView::WaitUntil { due: *due },
            CheckAction::List { due, existing } => CheckActionView::List { due: *due, existing: existing@ },
            CheckAction::Query { due, existing } => CheckActionView::Query { due: *due, existing: existing@ },
            CheckAction::Ask { due, request, rest } => CheckActionView::Ask {
                due: *due,
                request: request@,
                rest: request_views(rest@),
            },
            CheckAction::Stop { error } => CheckActionView::Stop { error: *error },
        }
    }
}

/// When the check after one that was due at `due` is due: a day later, as far as there is such a time.
pub open spec fn day_after(due: u64) -> u64 {
    if due + CHECK_INTERVAL_SECONDS <= u64::MAX {
        (due + CHECK_INTERVAL_SECONDS) as u64
    } else {
        u64::MAX
    }
}

/// What to do next when `requests` are left to ask: ask the first, or wait for the next check.
pub open spec fn resume(due: u64, requests: Seq<RequestView>) -> CheckActionView {
    if requests.len() == 0 {
        CheckActionView::WaitUntil { due: day_after(due) }
    } else {
        CheckActionView::Ask { due, request: requests[0], rest: requests.skip(1) }
    }
}

/// Whether `action` is what to do next when all is known that a check goes by.
pub open spec fn begins_round(
    webhook: WebhookView,
    due: u64,
    existing: Map<Seq<char>, Seq<char>>,
    entries: Seq<MappingView>,
    action: CheckActionView,
) -> bool {
    exists|requests: Seq<RequestView>|
        {
            &&& #[trigger] is_round(requests, existing, keys(entries), webhook.transport())
            &&& action == resume(due, requests)
        }
}

/// Whether `action` is what to do next when the checks have come so far.
pub open spec fn checks(webhook: WebhookView, progress: CheckingView, action: CheckActionView) -> bool {
    match progress {
        CheckingView::Begun => action == (CheckActionView::WaitUntil { due: INITIAL_DELAY_SECONDS }),
        CheckingView::Due { due } => action == (CheckActionView::List { due, existing: Map::empty() }),
        CheckingView::Listed { due, existing, page: PageView::Listed(listed) } => action == if is_named(
            listed,
            webhook.settings.url,
        ) {
            CheckActionView::List { due, existing: with_listing(existing, listed, webhook.settings.url) }
        } else {
            CheckActionView::Stop { error: CheckError::MissingBroadcaster }
        },
        CheckingView::Listed { due, existing, page: PageView::End } => action == (CheckActionView::Query {
            due,
            existing,
        }),
        CheckingView::Listed { due, existing, page: PageView::Failed } => action == (CheckActionView::Stop {
            error: CheckError::Listing,
        }),
        CheckingView::Queried { due, existing, entries: Some(entries) } => begins_round(
            webhook,
            due,
            existing,
            entries,
            action,
        ),
        CheckingView::Queried { due, existing, entries: None } => action == (CheckActionView::Stop {
            error: CheckError::Query,
        }),
        CheckingView::Asked { due, rest, done: true } => action == resume(due, rest),
        CheckingView::Asked { due, rest, done: false } => action == (CheckActionView::Stop {
            error: CheckError::Request,
        }),
    }
}

/// What to do next when `requests` are left to ask.
fn go_on(due: u64, requests: Vec<Request>) -> (action: CheckAction)
    ensures
        action@ == resume(due, request_views(requests@)),
{
    let mut rest = requests;
    if rest.len() == 0 {
        let next: u64 = if due <= u64::MAX - CHECK_INTERVAL_SECONDS {
            due + CHECK_INTERVAL_SECONDS
        } else {
            u64::MAX
        };
        CheckAction::WaitUntil { due: next }
    } else {
        let request = rest.remove(0);
        assert(request_views(rest@) =~= request_views(requests@).skip(1));
        CheckAction::Ask { due, request, rest }
    }
}

/// What to do next when all is known that a check goes by.
fn ask_round(webhook: &Webhook, due: u64, existing: &StringMap, entries: &Vec<Mapping>) -> (action: CheckAction)
    ensures
        begins_round(webhook@, due, existing@, mapping_views(entries@), action@),
{
    let expected = streamers(entries);
    let requests = webhook.register(existing, &expected);
    go_on(due, requests)
}

/// What to do next to keep the subscriptions that are registered: wait, list them, look up those that
/// are expected, and ask for what the two call for; every day anew.
pub fn check(webhook: &Webhook, progress: Checking) -> (action: CheckAction)
    ensures
        checks(webhook@, progress@, action@),
{
    match progress {
        Checking::Begun => CheckAction::WaitUntil { due: INITIAL_DELAY_SECONDS },
        Checking::Due { due } => CheckAction::List { due, existing: StringMap::new() },
        Checking::Listed { due, existing, page } => match page {
            Page::Listed(listed) => {
                let mut noted = existing;
                match note_listing(&mut noted, listed, webhook.settings().url.as_str()) {
                    Ok(()) => CheckAction::List { due, existing: noted },
                    Err(_) => CheckAction::Stop { error: CheckError::MissingBroadcaster },
                }
            },
            Page::End => CheckAction::Query { due, existing },
            Page::Failed => CheckAction::Stop { error: CheckError::Listing },
        },
        Checking::Queried { due, existing, entries } => match entries {
            Some(entries) => ask_round(webhook, due, &existing, &entries),
            None => CheckAction::Stop { error: CheckError::Query },
        },
        Checking::Asked { due, rest, done } => if done {
            go_on(due, rest)
        } else {
            CheckAction::Stop { error: CheckError::Request }
        },
    }
}

/// Whether the checks can have come so far once an action is done.
pub open spec fn check_continues(action: CheckActionView, progress: CheckingView) -> bool {
    match action {
        CheckActionView::WaitUntil { due } => progress == (CheckingView::Due { due }),
        CheckActionView::List { due, existing } => progress matches CheckingView::Listed {
            due: d,
            existing: e,
            page,
        } && d == due && e == existing,
        CheckActionView::Query { due, existing } => progress matches CheckingView::Queried {
            due: d,
            existing: e,
            entries,
        } && d == due && e == existing,
        CheckActionView::Ask { due, request, rest } => progress matches CheckingView::Asked {
            due: d,
            rest: r,
            done,
        } && d == due && r == rest,
        CheckActionView::Stop { error } => false,
    }
}

/// Whether the step at `i` is as it should be: the action follows from how far the checks have come,
/// and that from the action before.
pub open spec fn is_check_step(
    webhook: WebhookView,
    progress: Seq<CheckingView>,
    actions: Seq<CheckActionView>,
    i: int,
) -> bool {
    &&& checks(webhook, progress[i], actions[i])
    &&& if i == 0 {
        progress[i] == CheckingView::Begun
    } else {
        check_continues(actions[i - 1], progress[i])
    }
}

/// Whether `actions` is what the checks do, from their beginning, as they come so far.
pub open spec fn is_check_run(
    webhook: WebhookView,
    progress: Seq<CheckingView>,
    actions: Seq<CheckActionView>,
) -> bool {
    &&& progress.len() == actions.len()
    &&& forall|i: int| 0 <= i < actions.len() ==> #[trigger] is_check_step(webhook, progress, actions, i)
}

/// When check `n` is due, counting from zero, in seconds since the checks were begun.
pub open spec fn check_time(n: nat) -> nat {
    INITIAL_DELAY_SECONDS as nat + n * 86400
}

/// How many of `actions` wait for a check.
pub open spec fn waits(actions: Seq<CheckActionView>) -> nat
    decreases actions.len(),
{
    if actions.len() == 0 {
        0
    } else if actions.last() is WaitUntil {
        waits(actions.drop_last()) + 1
    } else {
        waits(actions.drop_last())
    }
}

/// When the present check was due.
proof fn lemma_due(webhook: WebhookView, progress: Seq<CheckingView>, actions: Seq<CheckActionView>, i: int)
    requires
        is_check_run(webhook, progress, actions),
        0 <= i < actions.len(),
        check_time(waits(actions.take(i))) <= u64::MAX,
    ensures
        i == 0 ==> waits(actions.take(i)) == 0,
        i > 0 ==> waits(actions.take(i)) > 0 && progress[i].due() == check_time(
            (waits(actions.take(i)) - 1) as nat,
        ),
        actions[i] matches CheckActionView::WaitUntil { due } ==> due == check_time(waits(actions.take(i))),
    decreases i,
{
    assert(is_check_step(webhook, progress, actions, i));
    if i > 0 {
        assert(actions.take(i).drop_last() =~= actions.take(i - 1));
        assert(actions.take(i).last() == actions[i - 1]);
        lemma_due(webhook, progress, actions, i - 1);
        assert(is_check_step(webhook, progress, actions, i - 1));
    }
}

/// The checks end only by an error, and they end as soon as something fails: a request for what is
/// registered, a query of the database, a request to create or drop a subscription, or the search for
/// the broadcaster of a subscription. While nothing does, they go on.
pub proof fn law_checks_end_only_by_an_error(
    webhook: WebhookView,
    progress: Seq<CheckingView>,
    actions: Seq<CheckActionView>,
    i: int,
)
    requires
        is_check_run(webhook, progress, actions),
        0 <= i < actions.len(),
    ensures
        actions[i] is Stop <==> progress[i].has_failed(webhook.settings.url),
        actions[i] is Stop ==> i == actions.len() - 1,
{
    assert(is_check_step(webhook, progress, actions, i));
    if i + 1 < actions.len() {
        assert(is_check_step(webhook, progress, actions, i + 1));
    }
}

/// The first thing that is done is to wait for five seconds, and check `n` is waited for until five
/// seconds and `n` days after the beginning, as far as there is such a time.
pub proof fn law_checks_are_daily(
    webhook: WebhookView,
    progress: Seq<CheckingView>,
    actions: Seq<CheckActionView>,
    i: int,
)
    requires
        is_check_run(webhook, progress, actions),
        0 <= i < actions.len(),
        check_time(waits(actions.take(i))) <= u64::MAX,
    ensures
        actions[0] == (CheckActionView::WaitUntil { due: 5 }),
        actions[i] matches CheckActionView::WaitUntil { due } ==> due == 5 + waits(actions.take(i)) * 86400,
{
    assert(is_check_step(webhook, progress, actions, 0));
    lemma_due(webhook, progress, actions, i);
}

/// All that is done from when `requests` are left to ask, where Twitch does all of it.
pub open spec fn asking(due: u64, requests: Seq<RequestView>) -> Seq<CheckActionView>
    decreases requests.len(),
{
    if requests.len() == 0 {
        seq![resume(due, requests)]
    } else {
        seq![resume(due, requests)] + asking(due, requests.skip(1))
    }
}

/// A check asks all that it calls for, in order and each once, and then waits for the next check, a
/// day after it was due itself.
pub proof fn law_checks_ask_everything(due: u64, requests: Seq<RequestView>)
    ensures
        asking(due, requests).len() == requests.len() + 1,
        forall|i: int|
            0 <= i < requests.len() ==> #[trigger] asking(due, requests)[i] == (CheckActionView::Ask {
                due,
                request: requests[i],
                rest: requests.skip(i + 1),
            }),
        asking(due, requests).last() == (CheckActionView::WaitUntil { due: day_after(due) }),
    decreases requests.len(),
{
    if requests.len() > 0 {
        law_checks_ask_everything(due, requests.skip(1));
        assert forall|i: int| 0 <= i < requests.len() implies #[trigger] asking(due, requests)[i] == (
        CheckActionView::Ask { due, request: requests[i], rest: requests.skip(i + 1) }) by {
            if i > 0 {
                assert(asking(due, requests)[i] == asking(due, requests.skip(1))[i - 1]);
                assert(requests.skip(1).skip(i) =~= requests.skip(i + 1));
            }
        }
    }
}

/// How far the passing on of new subscriptions has come.
pub enum Forwarding {
    /// It is free to take the next.
    Ready,
    /// A user subscribed to a broadcaster; or nobody can any more.
    Taken { broadcaster_user_id: Option<String> },
    /// Twitch was asked for a subscription; `done` is whether it did it.
    Asked { done: bool },
}

/// What a [`Forwarding`] says.
pub enum ForwardingView {
    Ready,
    Taken { broadcaster_user_id: Option<Seq<char>> },
    Asked { done: bool },
}

impl View for Forwarding {
    type V = ForwardingView;

    open spec fn view(&self) -> ForwardingView {
        match self {
            Forwarding::Ready => ForwardingView::Ready,
            Forwarding::Taken { broadcaster_user_id } => ForwardingView::Taken {
                broadcaster_user_id: optional_text(*broadcaster_user_id),
            },
            Forwarding::Asked { done } => ForwardingView::Asked { done: *done },
        }
    }
}

/// What the passing on of new subscriptions does next.
pub enum ForwardAction {
    /// Wait for someone to subscribe.
    Take,
    /// Ask this of Twitch.
    Ask { request: Request },
    /// End well.
    Finish,
    /// End with an error, with this to say above what failed.
    Fail { context: String },
}

/// What a [`ForwardAction`] says.
pub enum ForwardActionView {
    Take,
    Ask { request: RequestView },
    Finish,
    Fail { context: Seq<char> },
}

impl View for ForwardAction {
    type V = ForwardActionView;

    open spec fn view(&self) -> ForwardActionView {
        match self {
            ForwardAction::Take => ForwardActionView::Take,
            ForwardAction::Ask { request } => ForwardActionView::Ask { request: request@ },
            ForwardAction::Finish => ForwardActionView::Finish,
            ForwardAction::Fail { context } => ForwardActionView::Fail { context: context@ },
        }
    }
}

/// The request to notify of a broadcaster.
pub open spec fn forwarded(webhook: WebhookView, broadcaster_user_id: Seq<char>) -> ForwardActionView {
    ForwardActionView::Ask {
        request: RequestView::Create { broadcaster_user_id, transport: webhook.transport() },
    }
}

/// What to do next when the passing on of new subscriptions has come so far.
pub open spec fn forward_next(webhook: WebhookView, progress: ForwardingView) -> ForwardActionView {
    match progress {
        ForwardingView::Ready => ForwardActionView::Take,
        ForwardingView::Taken { broadcaster_user_id: Some(id) } => forwarded(webhook, id),
        ForwardingView::Taken { broadcaster_user_id: None } => ForwardActionView::Finish,
        ForwardingView::Asked { done: true } => ForwardActionView::Take,
        ForwardingView::Asked { done: false } => ForwardActionView::Fail {
            context: "when registering online event"@,
        },
    }
}

/// What to do next to pass on new subscriptions: ask for them, one after another.
pub fn forward(webhook: &Webhook, progress: Forwarding) -> (action: ForwardAction)
    ensures
        action@ == forward_next(webhook@, progress@),
{
    match progress {
        Forwarding::Ready => ForwardAction::Take,
        Forwarding::Taken { broadcaster_user_id } => match broadcaster_user_id {
            Some(id) => ForwardAction::Ask { request: webhook.subscribe(id) },
            None => ForwardAction::Finish,
        },
        Forwarding::Asked { done } => if done {
            ForwardAction::Take
        } else {
            ForwardAction::Fail { context: "when registering online event".to_string() }
        },
    }
}

/// All that is done to pass on `subscribed`, from when the next can be taken, where nobody subscribes
/// any more after that, and Twitch does what is asked of it.
pub open spec fn forwarding(webhook: WebhookView, subscribed: Seq<Seq<char>>) -> Seq<ForwardActionView>
    decreases subscribed.len(),
{
    let take = forward_next(webhook, ForwardingView::Ready);
    if subscribed.len() == 0 {
        seq![take, forward_next(webhook, ForwardingView::Taken { broadcaster_user_id: None })]
    } else {
        seq![
            take,
            forward_next(webhook, ForwardingView::Taken { broadcaster_user_id: Some(subscribed[0]) }),
        ] + forwarding(webhook, subscribed.skip(1))
    }
}

/// Each new subscription is asked for once and in order; where Twitch does all that is asked of it,
/// the passing on ends well once nobody can subscribe any more.
pub proof fn law_new_subscriptions_are_asked_for(webhook: WebhookView, subscribed: Seq<Seq<char>>)
    ensures
        forwarding(webhook, subscribed).len() == 2 * subscribed.len() + 2,
        forall|i: int|
            0 <= i < subscribed.len() ==> forwarding(webhook, subscribed)[2 * i + 1] == forwarded(
                webhook,
                #[trigger] subscribed[i],
            ),
        forwarding(webhook, subscribed).last() == ForwardActionView::Finish,
    decreases subscribed.len(),
{
    if subscribed.len() > 0 {
        let rest = subscribed.skip(1);
        law_new_subscriptions_are_asked_for(webhook, rest);
        assert forall|i: int| 0 <= i < subscribed.len() implies forwarding(webhook, subscribed)[2 * i + 1]
            == forwarded(webhook, #[trigger] subscribed[i]) by {
            if i > 0 {
                assert(rest[i - 1] == subscribed[i]);
                assert(forwarding(webhook, subscribed)[2 * i + 1] == forwarding(webhook, rest)[2 * (i - 1) + 1]);
            }
        }
    }
}

/// Whether a request asks for nothing that is not delivered to the webhook.
pub open spec fn is_delivered_to(webhook: WebhookView, request: RequestView) -> bool {
    request matches RequestView::Create { broadcaster_user_id, transport } ==> transport == webhook.transport()
}

/// What a check has left to ask is delivered to the webhook.
proof fn lemma_asked_is_delivered(
    webhook: WebhookView,
    progress: Seq<CheckingView>,
    actions: Seq<CheckActionView>,
    i: int,
)
    requires
        is_check_run(webhook, progress, actions),
        0 <= i < actions.len(),
    ensures
        actions[i] matches CheckActionView::Ask { due, request, rest } ==> {
            &&& is_delivered_to(webhook, request)
            &&& forall|j: int| 0 <= j < rest.len() ==> is_delivered_to(webhook, #[trigger] rest[j])
        },
    decreases i,
{
    assert(is_check_step(webhook, progress, actions, i));
    match progress[i] {
        CheckingView::Queried { due, existing, entries: Some(entries) } => {
            let requests = choose|requests: Seq<RequestView>|
                {
                    &&& #[trigger] is_round(requests, existing, keys(entries), webhook.transport())
                    &&& actions[i] == resume(due, requests)
                };
            let expected = keys(entries);
            let transport = webhook.transport();
            let (create, delete) = choose|create: Seq<Seq<char>>, delete: Seq<Seq<char>>|
                {
                    &&& requests == #[trigger] create_requests(create, transport) + #[trigger] delete_requests(
                        delete,
                        existing,
                    )
                    &&& is_listing(create, expected.difference(existing.dom()))
                    &&& is_listing(delete, expected.intersect(existing.dom()))
                };
            assert(forall|j: int| 0 <= j < requests.len() ==> is_delivered_to(webhook, #[trigger] requests[j]));
        },
        CheckingView::Asked { due, rest, done } => {
            lemma_asked_is_delivered(webhook, progress, actions, i - 1);
        },
        _ => {},
    }
}

/// The one secret of a run stands in every subscription that it asks for, in a check or when a user
/// subscribes, and it is what every request to the webhook is verified with: a request comes to be
/// looked up exactly when it is signed with it.
pub proof fn law_one_secret_registers_and_verifies(
    webhook: WebhookView,
    progress: Seq<CheckingView>,
    done: Seq<CheckActionView>,
    forward: ForwardingView,
    arrival: Arrival,
    remembered: Set<Seq<u8>>,
    open: bool,
)
    requires
        is_check_run(webhook, progress, done),
    ensures
        forall|i: int|
            0 <= i < done.len() ==> (#[trigger] done[i] matches CheckActionView::Ask { due, request, rest }
                ==> is_delivered_to(webhook, request)),
        forward_next(webhook, forward) matches ForwardActionView::Ask { request } ==> is_delivered_to(
            webhook,
            request,
        ),
        webhook.transport()->secret == webhook.sign_secret,
        arrival.is_small() && arrival.body is Some && !has_ill_sized_signature(arrival.headers) ==> (actions(
            webhook.sign_secret,
            arrival,
            remembered,
            open,
        ).contains(
            ActionView::LookUp {
                id: arrival.id(),
                reception: ReceptionView {
                    headers: arrival.headers,
                    body: arrival.body.unwrap(),
                    sign_secret: webhook.sign_secret,
                },
            },
        ) <==> payload_verified(arrival.headers, arrival.body.unwrap(), webhook.sign_secret)),
{
    assert forall|i: int| 0 <= i < done.len() implies (#[trigger] done[i] matches CheckActionView::Ask {
        due,
        request,
        rest,
    } ==> is_delivered_to(webhook, request)) by {
        lemma_asked_is_delivered(webhook, progress, done, i);
    }
    if arrival.is_small() && arrival.body is Some && !has_ill_sized_signature(arrival.headers) {
        let handled = actions(webhook.sign_secret, arrival, remembered, open);
        if payload_verified(arrival.headers, arrival.body.unwrap(), webhook.sign_secret) {
            lemma_signed_actions(webhook.sign_secret, arrival, remembered, open);
            assert(handled.contains(handled[1]));
        } else {
            law_unsigned_requests_are_refused(webhook.sign_secret, arrival, remembered, open);
        }
    }
}

/// How far the replacing of the token has come.
pub enum Refreshing<T> {
    /// `token` is held, and expires in so many seconds.
    Held { token: T, expires_in_seconds: u64 },
    /// `token` is held, and about to expire.
    Waited { token: T },
    /// Twitch was asked for another token while `token` is held; `fresh` is what it gave, if it did.
    Asked { token: T, fresh: Option<T> },
}

/// What the replacing of the token does next.
pub enum RefreshAction<T> {
    /// Wait for so many seconds.
    Wait { token: T, seconds: u64 },
    /// Ask Twitch for another token with these scopes.
    Ask { token: T, client_id: String, client_secret: String, scopes: Vec<String> },
    /// Hold this token from now on.
    Hold { token: T },
    /// End with the error of the request, and leave this token as it is.
    Stop { token: T },
}

/// What a [`RefreshAction`] says.
pub enum RefreshActionView<T> {
    Wait { token: T, seconds: u64 },
    Ask { token: T, client_id: Seq<char>, client_secret: Seq<char>, scopes: Seq<Seq<char>> },
    Hold { token: T },
    Stop { token: T },
}

impl<T> View for RefreshAction<T> {
    type V = RefreshActionView<T>;

    open spec fn view(&self) -> RefreshActionView<T> {
        match self {
            RefreshAction::Wait { token, seconds } => RefreshActionView::Wait {
                token: *token,
                seconds: *seconds,
            },
            RefreshAction::Ask { token, client_id, client_secret, scopes } => RefreshActionView::Ask {
                token: *token,
                client_id: client_id@,
                client_secret: client_secret@,
                scopes: texts(scopes@),
            },
            RefreshAction::Hold { token } => RefreshActionView::Hold { token: *token },
            RefreshAction::Stop { token } => RefreshActionView::Stop { token: *token },
        }
    }
}

/// The request for another token: without any scopes.
pub open spec fn token_request<T>(settings: SettingsView, token: T) -> RefreshActionView<T> {
    RefreshActionView::Ask {
        token,
        client_id: settings.client_id,
        client_secret: settings.client_secret,
        scopes: Seq::empty(),
    }
}

/// What to do next when the replacing of the token has come so far.
pub open spec fn refresh_next<T>(settings: SettingsView, progress: Refreshing<T>) -> RefreshActionView<T> {
    match progress {
        Refreshing::Held { token, expires_in_seconds } => RefreshActionView::Wait {
            token,
            seconds: (expires_in_seconds - REFRESH_MARGIN_SECONDS) as u64,
        },
        Refreshing::Waited { token } => token_request(settings, token),
        Refreshing::Asked { token, fresh: Some(fresh) } => RefreshActionView::Hold { token: fresh },
        Refreshing::Asked { token, fresh: None } => RefreshActionView::Stop { token },
    }
}

/// What to do next to replace the token before it expires.
pub fn refresher<T>(settings: &Settings, progress: Refreshing<T>) -> (action: RefreshAction<T>)
    requires
        progress matches Refreshing::Held { token, expires_in_seconds } ==> expires_in_seconds
            >= REFRESH_MARGIN_SECONDS,
    ensures
        action@ == refresh_next(settings@, progress),
{
    match progress {
        Refreshing::Held { token, expires_in_seconds } => RefreshAction::Wait {
            token,
            seconds: expires_in_seconds - REFRESH_MARGIN_SECONDS,
        },
        Refreshing::Waited { token } => {
            let scopes: Vec<String> = Vec::new();
            assert(texts(scopes@) =~= Seq::<Seq<char>>::empty());
            RefreshAction::Ask {
                token,
                client_id: settings.client_id.clone(),
                client_secret: settings.client_secret.clone(),
                scopes,
            }
        },
        Refreshing::Asked { token, fresh } => match fresh {
            Some(fresh) => RefreshAction::Hold { token: fresh },
            None => RefreshAction::Stop { token },
        },
    }
}

/// What Twitch replies when it is asked for another token: a token, and in how many seconds that will
/// expire when it is looked at next; or nothing.
pub type Reply<T> = Option<(T, u64)>;

/// All that is done from when `token` is held and expires in so many seconds, as long as there are
/// `replies` to the requests.
pub open spec fn refreshing<T>(
    settings: SettingsView,
    token: T,
    expires_in_seconds: u64,
    replies: Seq<Reply<T>>,
) -> Seq<RefreshActionView<T>>
    decreases replies.len(),
{
    if replies.len() == 0 {
        Seq::empty()
    } else {
        let asked = seq![
            refresh_next(settings, Refreshing::Held { token, expires_in_seconds }),
            refresh_next(settings, Refreshing::Waited { token }),
        ];
        match replies[0] {
            Some((fresh, expires)) => asked.push(
                refresh_next(settings, Refreshing::Asked { token, fresh: Some(fresh) }),
            ) + refreshing(settings, fresh, expires, replies.skip(1)),
            None => asked.push(refresh_next(settings, Refreshing::Asked { token, fresh: None })),
        }
    }
}

/// The token that is held in round `n`.
pub open spec fn held<T>(token: T, replies: Seq<Reply<T>>, n: int) -> T {
    if n == 0 {
        token
    } else {
        replies[n - 1].unwrap().0
    }
}

/// In how many seconds the token that is held in round `n` expires.
pub open spec fn expiry<T>(expires_in_seconds: u64, replies: Seq<Reply<T>>, n: int) -> u64 {
    if n == 0 {
        expires_in_seconds
    } else {
        replies[n - 1].unwrap().1
    }
}

/// How much is done in rounds of which only the last can fail.
proof fn lemma_refreshing_len<T>(
    settings: SettingsView,
    token: T,
    expires_in_seconds: u64,
    replies: Seq<Reply<T>>,
)
    requires
        forall|i: int| 0 <= i < replies.len() - 1 ==> #[trigger] replies[i] is Some,
    ensures
        refreshing(settings, token, expires_in_seconds, replies).len() == 3 * replies.len(),
    decreases replies.len(),
{
    if replies.len() > 0 {
        match replies[0] {
            Some((fresh, expires)) => {
                assert forall|i: int| 0 <= i < replies.skip(1).len() - 1 implies #[trigger] replies.skip(1)[i]
                    is Some by {
                    assert(replies[i + 1] is Some);
                }
                lemma_refreshing_len(settings, fresh, expires, replies.skip(1));
            },
            None => {},
        }
    }
}

/// Each round waits until twenty seconds before the token that is held expires, and then makes one
/// request, without scopes. The token that this gives is held from then on, and the next round goes
/// by it; a failed request ends the replacing, and leaves the token as it is. Nothing else ends it.
/// Here, round `n` of those in which the requests were given `replies`.
pub proof fn law_tokens_are_replaced_in_time<T>(
    settings: SettingsView,
    token: T,
    expires_in_seconds: u64,
    replies: Seq<Reply<T>>,
    n: int,
)
    requires
        0 <= n < replies.len(),
        forall|i: int| 0 <= i < replies.len() - 1 ==> #[trigger] replies[i] is Some,
        expiry(expires_in_seconds, replies, n) >= REFRESH_MARGIN_SECONDS,
    ensures
        refreshing(settings, token, expires_in_seconds, replies).len() == 3 * replies.len(),
        refreshing(settings, token, expires_in_seconds, replies)[3 * n] == (RefreshActionView::Wait {
            token: held(token, replies, n),
            seconds: (expiry(expires_in_seconds, replies, n) - 20) as u64,
        }),
        refreshing(settings, token, expires_in_seconds, replies)[3 * n + 1] == token_request(
            settings,
            held(token, replies, n),
        ),
        refreshing(settings, token, expires_in_seconds, replies)[3 * n + 2] == match replies[n] {
            Some((fresh, _)) => RefreshActionView::Hold { token: fresh },
            None => RefreshActionView::Stop { token: held(token, replies, n) },
        },
    decreases n,
{
    lemma_refreshing_len(settings, token, expires_in_seconds, replies);
    if n > 0 {
        assert(replies[0] is Some);
        let (fresh, expires) = replies[0].unwrap();
        let rest = replies.skip(1);
        assert forall|i: int| 0 <= i < rest.len() - 1 implies #[trigger] rest[i] is Some by {
            assert(replies[i + 1] is Some);
        }
        assert(held(token, replies, n) == held(fresh, rest, n - 1));
        assert(expiry(expires_in_seconds, replies, n) == expiry(expires, rest, n - 1));
        law_tokens_are_replaced_in_time(settings, fresh, expires, rest, n - 1);
        let done = refreshing(settings, token, expires_in_seconds, replies);
        let later = refreshing(settings, fresh, expires, rest);
        assert(done.skip(3) =~= later);
        assert(done[3 * n] == done.skip(3)[3 * (n - 1)]);
        assert(done[3 * n + 1] == done.skip(3)[3 * (n - 1) + 1]);
        assert(done[3 * n + 2] == done.skip(3)[3 * (n - 1) + 2]);
    }
}

/// Whenever a check is due, the first and any later one, what is registered is listed, from nothing.
pub proof fn law_due_checks_list(webhook: WebhookView, due: u64, action: CheckActionView)
    requires
        checks(webhook, CheckingView::Due { due }, action),
    ensures
        action matches CheckActionView::List { due: same, existing } && same == due && (forall|b: Seq<char>|
            !#[trigger] existing.contains_key(b)),
{
}

/// A page in order is noted, and more is listed; one that is not ends the checks, and so does one that
/// could not be had; and once there are no more, who subscribed to whom is looked up, with all that was
/// noted.
pub proof fn law_pages_are_noted(
    webhook: WebhookView,
    due: u64,
    existing: Map<Seq<char>, Seq<char>>,
    page: PageView,
    action: CheckActionView,
)
    requires
        checks(webhook, CheckingView::Listed { due, existing, page }, action),
    ensures
        page matches PageView::Listed(listed) ==> if is_named(listed, webhook.settings.url) {
            action matches CheckActionView::List { due: same, existing: noted } && same == due && noted
                == with_listing(existing, listed, webhook.settings.url)
        } else {
            action matches CheckActionView::Stop { error } && error is MissingBroadcaster
        },
        page is End ==> (action matches CheckActionView::Query { due: same, existing: kept } && same == due
            && kept == existing),
        page is Failed ==> (action matches CheckActionView::Stop { error } && error is Listing),
{
}

/// Once it is known what is registered and what is expected, the first request of a whole round is
/// made, with the others left to make; or none, where the round is empty, and then the next check is
/// waited for. Without what is expected the checks end.
pub proof fn law_rounds_are_begun(
    webhook: WebhookView,
    due: u64,
    existing: Map<Seq<char>, Seq<char>>,
    entries: Option<Seq<MappingView>>,
    action: CheckActionView,
)
    requires
        checks(webhook, CheckingView::Queried { due, existing, entries }, action),
    ensures
        entries is None ==> (action matches CheckActionView::Stop { error } && error is Query),
        entries matches Some(found) ==> match action {
            CheckActionView::Ask { due: same, request, rest } => same == due && is_round(
                seq![request] + rest,
                existing,
                keys(found),
                webhook.transport(),
            ),
            CheckActionView::WaitUntil { due: next } => is_round(
                Seq::empty(),
                existing,
                keys(found),
                webhook.transport(),
            ) && (due + 86400 <= u64::MAX ==> next == due + 86400),
            _ => false,
        },
{
    if let Some(found) = entries {
        let requests = choose|requests: Seq<RequestView>|
            {
                &&& #[trigger] is_round(requests, existing, keys(found), webhook.transport())
                &&& action == resume(due, requests)
            };
        if requests.len() == 0 {
            assert(requests =~= Seq::empty());
        } else {
            assert(seq![requests[0]] + requests.skip(1) =~= requests);
        }
    }
}

/// Once a request is done, the next of those left is made; where none is left, the next check is waited
/// for, until a day after this one was due; and a request that is not done ends the checks.
pub proof fn law_rounds_are_gone_through(
    webhook: WebhookView,
    due: u64,
    rest: Seq<RequestView>,
    done: bool,
    action: CheckActionView,
)
    requires
        checks(webhook, CheckingView::Asked { due, rest, done }, action),
    ensures
        !done ==> (action matches CheckActionView::Stop { error } && error is Request),
        done && rest.len() > 0 ==> (action matches CheckActionView::Ask { due: same, request, rest: left }
            && same == due && seq![request] + left == rest),
        done && rest.len() == 0 ==> (action matches CheckActionView::WaitUntil { due: next } && (due + 86400
            <= u64::MAX ==> next == due + 86400) && (due + 86400 > u64::MAX ==> next == u64::MAX)),
{
    if rest.len() > 0 {
        assert(seq![rest[0]] + rest.skip(1) =~= rest);
    }
}

/// All subscriptions that were listed as the checks came from `from` to just before `to`, in order.
pub open spec fn pages(progress: Seq<CheckingView>, from: int, to: int) -> Seq<EventSubSubscription>
    decreases to - from,
{
    if to <= from {
        Seq::empty()
    } else {
        pages(progress, from, to - 1) + match progress[to - 1] {
            CheckingView::Listed { due, existing, page: PageView::Listed(listed) } => listed,
            _ => Seq::empty(),
        }
    }
}

/// Nothing is done after the checks ended.
proof fn lemma_no_stop(webhook: WebhookView, progress: Seq<CheckingView>, actions: Seq<CheckActionView>, i: int)
    requires
        is_check_run(webhook, progress, actions),
        0 <= i < actions.len() - 1,
    ensures
        !(actions[i] is Stop),
{
    assert(is_check_step(webhook, progress, actions, i + 1));
}

/// A listing goes on until who subscribed to whom is looked up.
proof fn lemma_listing_ends(
    webhook: WebhookView,
    progress: Seq<CheckingView>,
    actions: Seq<CheckActionView>,
    start: int,
    k: int,
    end: int,
) -> (query: int)
    requires
        is_check_run(webhook, progress, actions),
        0 <= start <= k < end < actions.len(),
        actions[end] is WaitUntil,
        actions[k] matches CheckActionView::List { due, existing } && due == progress[start].due() && existing
            == with_listing(Map::empty(), pages(progress, start + 1, k + 1), webhook.settings.url),
        is_named(pages(progress, start + 1, k + 1), webhook.settings.url),
    ensures
        k < query < end,
        actions[query] matches CheckActionView::Query { due, existing } && due == progress[start].due()
            && existing == with_listing(
            Map::empty(),
            pages(progress, start + 1, query + 1),
            webhook.settings.url,
        ),
        is_named(pages(progress, start + 1, query + 1), webhook.settings.url),
        forall|m: int| k < m < query ==> #[trigger] actions[m] is List,
    decreases end - k,
{
    assert(is_check_step(webhook, progress, actions, k + 1));
    let url = webhook.settings.url;
    let before = pages(progress, start + 1, k + 1);
    let after = pages(progress, start + 1, k + 2);
    if k + 1 < end {
        lemma_no_stop(webhook, progress, actions, k + 1);
    }
    match progress[k + 1] {
        CheckingView::Listed { due, existing, page: PageView::Listed(listed) } => {
            assert(after == before + listed);
            law_pages_are_noted_in_turn(Map::empty(), before, listed, url);
            assert forall|i: int| 0 <= i < after.len() implies !(#[trigger] after[i]).is_unnamed_at(url) by {
                if i < before.len() {
                    assert(after[i] == before[i]);
                } else {
                    assert(after[i] == listed[i - before.len()]);
                }
            }
            lemma_listing_ends(webhook, progress, actions, start, k + 1, end)
        },
        _ => {
            assert(after =~= before);
            k + 1
        },
    }
}

/// A round goes on until the next check is waited for.
proof fn lemma_round_ends(
    webhook: WebhookView,
    progress: Seq<CheckingView>,
    actions: Seq<CheckActionView>,
    due: u64,
    requests: Seq<RequestView>,
    first: int,
    k: int,
    end: int,
)
    requires
        is_check_run(webhook, progress, actions),
        0 <= first,
        0 <= k <= requests.len(),
        first + k <= end < actions.len(),
        actions[first + k] == resume(due, requests.skip(k)),
        actions[end] is WaitUntil,
        forall|m: int| first <= m < end ==> !(#[trigger] actions[m] is WaitUntil),
    ensures
        end == first + requests.len(),
        actions[end] == (CheckActionView::WaitUntil { due: day_after(due) }),
        forall|m: int|
            first + k <= m < end ==> (#[trigger] actions[m] matches CheckActionView::Ask {
                due: same,
                request,
                rest,
            } && request == requests[m - first]),
    decreases requests.len() - k,
{
    if k < requests.len() {
        assert(requests.skip(k)[0] == requests[k]);
        assert(requests.skip(k).skip(1) =~= requests.skip(k + 1));
        assert(is_check_step(webhook, progress, actions, first + k + 1));
        if first + k + 1 < end {
            lemma_no_stop(webhook, progress, actions, first + k + 1);
        }
        lemma_round_ends(webhook, progress, actions, due, requests, first, k + 1, end);
        assert forall|m: int| first + k <= m < end implies (#[trigger] actions[m] matches CheckActionView::Ask {
            due: same,
            request,
            rest,
        } && request == requests[m - first]) by {
            if m == first + k {
                assert(actions[first + k] matches CheckActionView::Ask { due: same, request, rest } && request
                    == requests[k]);
            }
        }
    }
}

/// Between two waits there is always a whole check: what is registered is listed from nothing, page by
/// page; then who subscribed to whom is looked up, and found; and then all requests of the round that
/// this calls for are made, one after another, and nothing else is done. The second wait is until a day
/// after the first.
pub proof fn law_between_waits_there_is_a_whole_check(
    webhook: WebhookView,
    progress: Seq<CheckingView>,
    actions: Seq<CheckActionView>,
    i: int,
    j: int,
) -> (round: (int, Seq<MappingView>, Seq<RequestView>))
    requires
        is_check_run(webhook, progress, actions),
        0 <= i < j < actions.len(),
        actions[i] is WaitUntil,
        actions[j] is WaitUntil,
        forall|m: int| i < m < j ==> !(#[trigger] actions[m] is WaitUntil),
    ensures
        ({
            let (query, entries, requests) = round;
            let existing = with_listing(
                Map::empty(),
                pages(progress, i + 2, query + 1),
                webhook.settings.url,
            );
            &&& i + 1 < query < j
            &&& actions[i + 1] matches CheckActionView::List { due, existing: nothing }
            &&& forall|b: Seq<char>| !#[trigger] nothing.contains_key(b)
            &&& forall|m: int| i < m < query ==> #[trigger] actions[m] is List
            &&& actions[query] is Query
            &&& progress[query + 1] matches CheckingView::Queried { due: same, existing: noted, entries: found }
            &&& noted == existing
            &&& found == Some(entries)
            &&& is_round(requests, existing, keys(entries), webhook.transport())
            &&& j == query + 1 + requests.len()
            &&& forall|m: int|
                query < m < j ==> (#[trigger] actions[m] matches CheckActionView::Ask { due, request, rest }
                    && request == requests[m - query - 1])
        }),
        actions[i]->WaitUntil_due + 86400 <= u64::MAX ==> actions[j]->WaitUntil_due
            == actions[i]->WaitUntil_due + 86400,
{
    let start = i + 1;
    let due = actions[i]->WaitUntil_due;
    assert(is_check_step(webhook, progress, actions, start));
    assert(progress[start] == CheckingView::Due { due });
    assert(pages(progress, start + 1, start + 1) =~= Seq::empty());
    let query = lemma_listing_ends(webhook, progress, actions, start, start, j);
    assert(is_check_step(webhook, progress, actions, query + 1));
    if query + 1 < j {
        lemma_no_stop(webhook, progress, actions, query + 1);
    }
    let existing = actions[query]->Query_existing;
    let entries = progress[query + 1]->Queried_entries.unwrap();
    let requests = choose|requests: Seq<RequestView>|
        {
            &&& #[trigger] is_round(requests, existing, keys(entries), webhook.transport())
            &&& actions[query + 1] == resume(due, requests)
        };
    assert(requests.skip(0) =~= requests);
    lemma_round_ends(webhook, progress, actions, due, requests, query + 1, 0, j);
    (query, entries, requests)
}

/// A new subscription is asked for with the broadcaster that the user subscribed to, over the
/// webhook's transport; then the next is taken; there being no more ends it well, and a request that
/// is not done with an error.
pub proof fn law_forwarding_goes_step_by_step(webhook: WebhookView, id: Seq<char>)
    ensures
        forward_next(webhook, ForwardingView::Ready) is Take,
        forward_next(webhook, ForwardingView::Taken { broadcaster_user_id: Some(id) }) matches
            ForwardActionView::Ask { request: RequestView::Create { broadcaster_user_id, transport } }
            && broadcaster_user_id == id && transport == webhook.transport(),
        forward_next(webhook, ForwardingView::Taken { broadcaster_user_id: None }) is Finish,
        forward_next(webhook, ForwardingView::Asked { done: true }) is Take,
        forward_next(webhook, ForwardingView::Asked { done: false }) == (ForwardActionView::Fail {
            context: "when registering online event"@,
        }),
{
}

/// Whatever the token: it is kept until twenty seconds before it expires; then one is asked for, with
/// the client id and secret of the settings and without scopes; the one that is given is held, and
/// where none is given the old one stays.
pub proof fn law_refreshing_goes_step_by_step<T>(
    settings: SettingsView,
    token: T,
    expires_in_seconds: u64,
    fresh: T,
)
    requires
        expires_in_seconds >= 20,
    ensures
        refresh_next(settings, Refreshing::Held { token, expires_in_seconds }) matches RefreshActionView::Wait {
            token: kept,
            seconds,
        } && kept == token && seconds + 20 == expires_in_seconds,
        refresh_next(settings, Refreshing::Waited { token }) matches RefreshActionView::Ask {
            token: kept,
            client_id,
            client_secret,
            scopes,
        } && kept == token && client_id == settings.client_id && client_secret == settings.client_secret
            && scopes.len() == 0,
        refresh_next(settings, Refreshing::Asked { token, fresh: Some(fresh) }) matches RefreshActionView::Hold {
            token: held,
        } && held == fresh,
        refresh_next(settings, Refreshing::Asked { token, fresh: None }) matches RefreshActionView::Stop {
            token: kept,
        } && kept == token,
{
}

/// What is said of the checks, and of what they do, is what it holds.
pub proof fn law_checks_say_what_they_hold(page: Page, progress: Checking, action: CheckAction)
    ensures
        match page {
            Page::Listed(listed) => page@ matches PageView::Listed(l) && l == listed@,
            Page::End => page@ is End,
            Page::Failed => page@ is Failed,
        },
        match progress {
            Checking::Begun => progress@ is Begun,
            Checking::Due { due } => progress@ matches CheckingView::Due { due: d } && d == due,
            Checking::Listed { due, existing, page } => progress@ matches CheckingView::Listed {
                due: d,
                existing: e,
                page: p,
            } && d == due && e == existing@ && p == page@,
            Checking::Queried { due, existing, entries } => progress@ matches CheckingView::Queried {
                due: d,
                existing: e,
                entries: f,
            } && d == due && e == existing@ && (entries is None <==> f is None) && (entries is Some ==> f == Some(
                mapping_views(entries.unwrap()@),
            )),
            Checking::Asked { due, rest, done } => progress@ matches CheckingView::Asked {
                due: d,
                rest: r,
                done: f,
            } && d == due && r == request_views(rest@) && f == done,
        },
        match action {
            CheckAction::WaitUntil { due } => action@ matches CheckActionView::WaitUntil { due: d } && d == due,
            CheckAction::List { due, existing } => action@ matches CheckActionView::List { due: d, existing: e }
                && d == due && e == existing@,
            CheckAction::Query { due, existing } => action@ matches CheckActionView::Query { due: d, existing: e }
                && d == due && e == existing@,
            CheckAction::Ask { due, request, rest } => action@ matches CheckActionView::Ask {
                due: d,
                request: q,
                rest: r,
            } && d == due && q == request@ && r == request_views(rest@),
            CheckAction::Stop { error } => action@ matches CheckActionView::Stop { error: e } && e == error,
        },
{
}

/// What is said of the passing on of subscriptions, and of the replacing of the token, is what it
/// holds.
pub proof fn law_tasks_say_what_they_hold<T>(
    progress: Forwarding,
    action: ForwardAction,
    refresh: RefreshAction<T>,
)
    ensures
        match progress {
            Forwarding::Ready => progress@ is Ready,
            Forwarding::Taken { broadcaster_user_id } => progress@ matches ForwardingView::Taken {
                broadcaster_user_id: b,
            } && (broadcaster_user_id is None <==> b is None) && (broadcaster_user_id is Some ==> b == Some(
                broadcaster_user_id.unwrap()@,
            )),
            Forwarding::Asked { done } => progress@ matches ForwardingView::Asked { done: d } && d == done,
        },
        match action {
            ForwardAction::Take => action@ is Take,
            ForwardAction::Ask { request } => action@ matches ForwardActionView::Ask { request: r } && r
                == request@,
            ForwardAction::Finish => action@ is Finish,
            ForwardAction::Fail { context } => action@ matches ForwardActionView::Fail { context: c } && c
                == context@,
        },
        match refresh {
            RefreshAction::Wait { token, seconds } => refresh@ matches RefreshActionView::Wait {
                token: t,
                seconds: s,
            } && t == token && s == seconds,
            RefreshAction::Ask { token, client_id, client_secret, scopes } => refresh@ matches
                RefreshActionView::Ask { token: t, client_id: i, client_secret: c, scopes: s } && t == token && i
                == client_id@ && c == client_secret@ && s == texts(scopes@),
            RefreshAction::Hold { token } => refresh@ matches RefreshActionView::Hold { token: t } && t == token,
            RefreshAction::Stop { token } => refresh@ matches RefreshActionView::Stop { token: t } && t == token,
        },
{
}

} // verus!
