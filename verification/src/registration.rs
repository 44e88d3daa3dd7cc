//! Keeping the subscriptions that are registered with Twitch.
use vstd::prelude::*;

use crate::collections::{entry_texts, lists, StringMap, StringSet};
use crate::eventsub::{string_member, string_members};
use crate::text::{optional_text, same, texts};

verus! {

/// How long to wait before the first check, in seconds.
pub const INITIAL_DELAY_SECONDS: u64 = 5;

/// The time from one check to the next, in seconds: a day.
pub const CHECK_INTERVAL_SECONDS: u64 = 24 * 60 * 60;

/// How Twitch is to deliver the events of a subscription.
pub enum Transport {
    /// Through requests to `callback`, signed with `secret`.
    Webhook { callback: String, secret: String },
    /// Through the websocket session `session_id`.
    Websocket { session_id: String },
}

/// What a [`Transport`] says.
pub enum TransportView {
    Webhook { callback: Seq<char>, secret: Seq<char> },
    Websocket { session_id: Seq<char> },
}

impl View for Transport {
    type V = TransportView;

    open spec fn view(&self) -> TransportView {
        match self {
            Transport::Webhook { callback, secret } => TransportView::Webhook {
                callback: callback@,
                secret: secret@,
            },
            Transport::Websocket { session_id } => TransportView::Websocket { session_id: session_id@ },
        }
    }
}

impl Transport {
    /// A transport that says the same.
    pub fn copy(&self) -> (transport: Transport)
        ensures
            transport@ == self@,
    {
        match self {
            Transport::Webhook { callback, secret } => Transport::Webhook {
                callback: callback.clone(),
                secret: secret.clone(),
            },
            Transport::Websocket { session_id } => Transport::Websocket { session_id: session_id.clone() },
        }
    }
}

/// What is asked of Twitch.
pub enum Request {
    /// To notify, over `transport`, when the broadcaster's stream goes online.
    Create { broadcaster_user_id: String, transport: Transport },
    /// To drop the subscription `id`.
    Delete { id: String },
}

/// What a [`Request`] says.
pub enum RequestView {
    Create { broadcaster_user_id: Seq<char>, transport: TransportView },
    Delete { id: Seq<char> },
}

impl View for Request {
    type V = RequestView;

    open spec fn view(&self) -> RequestView {
        match self {
            Request::Create { broadcaster_user_id, transport } => RequestView::Create {
                broadcaster_user_id: broadcaster_user_id@,
                transport: transport@,
            },
            Request::Delete { id } => RequestView::Delete { id: id@ },
        }
    }
}

/// What requests say.
pub open spec fn request_views(requests: Seq<Request>) -> Seq<RequestView> {
    requests.map_values(|request: Request| request@)
}

/// A subscription that is registered with Twitch.
pub struct EventSubSubscription {
    /// Its id.
    pub id: String,
    /// The callback of its transport, where that is a webhook.
    pub callback: Option<String>,
    /// The version of what is subscribed to.
    pub version: String,
    /// The name of what is subscribed to, such as `stream.online`.
    pub type_: String,
    /// What it is subscribed to for.
    pub condition: serde_json::Value,
}

impl EventSubSubscription {
    /// The broadcaster that the condition names, if it names one.
    pub open spec fn broadcaster(self) -> Option<Seq<char>> {
        let members = string_members(self.condition);
        if members.contains_key("broadcaster_user_id"@) {
            Some(members["broadcaster_user_id"@])
        } else {
            None
        }
    }

    /// Whether this is a subscription to a stream's going online, delivered to `website`.
    pub open spec fn is_stream_online_at(self, website: Seq<char>) -> bool {
        &&& optional_text(self.callback) == Some(website)
        &&& self.version@ == "1"@
        &&& self.type_@ == "stream.online"@
    }

    /// Whether this is a subscription to a stream's going online, delivered to `website`, that names
    /// no broadcaster.
    pub open spec fn is_unnamed_at(self, website: Seq<char>) -> bool {
        self.is_stream_online_at(website) && self.broadcaster() is None
    }

    /// Whether this is a subscription to the stream of `broadcaster` going online, delivered to
    /// `website`.
    pub open spec fn is_of(self, broadcaster: Seq<char>, website: Seq<char>) -> bool {
        self.is_stream_online_at(website) && self.broadcaster() == Some(broadcaster)
    }
}

/// A subscription to a stream's going online names no broadcaster.
pub struct MissingBroadcaster;

impl MissingBroadcaster {
    /// What went wrong.
    pub fn message(&self) -> (message: String)
        ensures
            message@ == "stream.online did not contain broadcaster"@,
    {
        "stream.online did not contain broadcaster".to_string()
    }
}

/// `existing` with the subscription noted, if it is one to a stream's going online that is delivered
/// to `website` and names its broadcaster.
pub open spec fn with_noted(
    existing: Map<Seq<char>, Seq<char>>,
    subscription: EventSubSubscription,
    website: Seq<char>,
) -> Map<Seq<char>, Seq<char>> {
    match subscription.broadcaster() {
        Some(broadcaster) if subscription.is_stream_online_at(website) => existing.insert(
            broadcaster,
            subscription.id@,
        ),
        _ => existing,
    }
}

/// `existing` with one subscription after another noted, up to the first that should name a
/// broadcaster and does not.
pub open spec fn with_listing(
    existing: Map<Seq<char>, Seq<char>>,
    listed: Seq<EventSubSubscription>,
    website: Seq<char>,
) -> Map<Seq<char>, Seq<char>>
    decreases listed.len(),
{
    if listed.len() == 0 || listed[0].is_unnamed_at(website) {
        existing
    } else {
        with_listing(with_noted(existing, listed[0], website), listed.skip(1), website)
    }
}

/// Whether each subscription of `listed` that should name a broadcaster does.
pub open spec fn is_named(listed: Seq<EventSubSubscription>, website: Seq<char>) -> bool {
    forall|i: int| 0 <= i < listed.len() ==> !(#[trigger] listed[i]).is_unnamed_at(website)
}

/// Notes a registered subscription among `existing`, which gives the subscription id of each
/// broadcaster, if it is one to a stream's going online that is delivered to `website`.
pub fn note_registered(
    existing: &mut StringMap,
    subscription: &EventSubSubscription,
    website: &str,
) -> (noted: Result<(), MissingBroadcaster>)
    ensures
        noted is Err <==> subscription.is_unnamed_at(website@),
        final(existing)@ == with_noted(old(existing)@, *subscription, website@),
{
    let delivered_here = match &subscription.callback {
        Some(callback) => same(callback.as_str(), website),
        None => false,
    };
    if delivered_here && same(subscription.version.as_str(), "1") && same(
        subscription.type_.as_str(),
        "stream.online",
    ) {
        match string_member(&subscription.condition, "broadcaster_user_id") {
            Some(broadcaster) => {
                existing.insert(broadcaster, subscription.id.clone());
                Ok(())
            },
            None => Err(MissingBroadcaster),
        }
    } else {
        Ok(())
    }
}

/// Notes one listed subscription after another among `existing`, and stops at the first that should
/// name a broadcaster and does not.
pub fn note_listing(
    existing: &mut StringMap,
    listed: Vec<EventSubSubscription>,
    website: &str,
) -> (noted: Result<(), MissingBroadcaster>)
    ensures
        noted is Ok <==> is_named(listed@, website@),
        final(existing)@ == with_listing(old(existing)@, listed@, website@),
{
    let mut i: usize = 0;
    assert(listed@.skip(0) =~= listed@);
    while i < listed.len()
        invariant
            i <= listed.len(),
            forall|j: int| 0 <= j < i ==> !(#[trigger] listed@[j]).is_unnamed_at(website@),
            with_listing(existing@, listed@.skip(i as int), website@) == with_listing(
                old(existing)@,
                listed@,
                website@,
            ),
        decreases listed.len() - i,
    {
        assert(listed@.skip(i as int)[0] == listed@[i as int]);
        assert(listed@.skip(i as int).skip(1) =~= listed@.skip(i + 1));
        match note_registered(existing, &listed[i], website) {
            Ok(()) => {},
            Err(error) => return Err(error),
        }
        i = i + 1;
    }
    Ok(())
}

/// To notify, over `transport`, of each broadcaster of `broadcasters`.
pub open spec fn create_requests(broadcasters: Seq<Seq<char>>, transport: TransportView) -> Seq<RequestView> {
    broadcasters.map_values(
        |broadcaster_user_id: Seq<char>| RequestView::Create { broadcaster_user_id, transport },
    )
}

/// To drop the subscription that `existing` gives each broadcaster of `broadcasters`.
pub open spec fn delete_requests(
    broadcasters: Seq<Seq<char>>,
    existing: Map<Seq<char>, Seq<char>>,
) -> Seq<RequestView> {
    broadcasters.map_values(|broadcaster: Seq<char>| RequestView::Delete { id: existing[broadcaster] })
}

/// Whether `listing` lists each element of `set`, and nothing else, once.
pub open spec fn is_listing(listing: Seq<Seq<char>>, set: Set<Seq<char>>) -> bool {
    &&& listing.no_duplicates()
    &&& listing.to_set() == set
}

/// Whether `requests` is what a check asks of Twitch: to notify, over `transport`, of each expected
/// broadcaster that has no subscription, and then to drop the subscription of each expected
/// broadcaster that has one; each once, and in any order.
pub open spec fn is_round(
    requests: Seq<RequestView>,
    existing: Map<Seq<char>, Seq<char>>,
    expected: Set<Seq<char>>,
    transport: TransportView,
) -> bool {
    exists|create: Seq<Seq<char>>, delete: Seq<Seq<char>>|
        {
            &&& requests == #[trigger] create_requests(create, transport) + #[trigger] delete_requests(
                delete,
                existing,
            )
            &&& is_listing(create, expected.difference(existing.dom()))
            &&& is_listing(delete, expected.intersect(existing.dom()))
        }
}

/// Listing one more text.
proof fn lemma_push(listing: Seq<Seq<char>>, text: Seq<char>)
    ensures
        forall|t: Seq<char>| #[trigger]
            listing.push(text).contains(t) <==> listing.contains(t) || t == text,
        listing.no_duplicates() && !listing.contains(text) ==> listing.push(text).no_duplicates(),
{
    let pushed = listing.push(text);
    assert forall|t: Seq<char>| #[trigger] pushed.contains(t) <==> listing.contains(t) || t == text by {
        if listing.contains(t) {
            let i = listing.lemma_contains_to_index(t);
            assert(pushed[i] == t);
        }
        assert(pushed[listing.len() as int] == text);
    }
}

/// The requests to notify of the expected broadcasters that have no subscription.
fn to_subscribe(existing: &StringMap, expected: &StringSet, transport: &Transport) -> (requests: Vec<Request>)
    ensures
        exists|create: Seq<Seq<char>>|
            {
                &&& request_views(requests@) == #[trigger] create_requests(create, transport@)
                &&& is_listing(create, expected@.difference(existing@.dom()))
            },
{
    let mut requests: Vec<Request> = Vec::new();
    let wanted = expected.items();
    let ghost listed = texts(wanted@);
    let ghost mut create: Seq<Seq<char>> = Seq::empty();
    let mut i: usize = 0;
    assert(request_views(requests@) =~= create_requests(create, transport@));
    while i < wanted.len()
        invariant
            i <= wanted.len(),
            listed == texts(wanted@),
            listed.no_duplicates(),
            request_views(requests@) == create_requests(create, transport@),
            create.no_duplicates(),
            forall|text: Seq<char>| #[trigger]
                create.contains(text) <==> listed.take(i as int).contains(text) && !existing@.contains_key(text),
        decreases wanted.len() - i,
    {
        let ghost text = listed[i as int];
        proof {
            assert(listed.take(i + 1) =~= listed.take(i as int).push(text));
            assert(!listed.take(i as int).contains(text));
            lemma_push(listed.take(i as int), text);
            lemma_push(create, text);
        }
        if !existing.contains_key(&wanted[i]) {
            let ghost before = request_views(requests@);
            requests.push(Request::Create { broadcaster_user_id: wanted[i].clone(), transport: transport.copy() });
            proof {
                assert(request_views(requests@) =~= before.push(requests@.last()@));
                assert(create_requests(create.push(text), transport@) =~= create_requests(
                    create,
                    transport@,
                ).push(RequestView::Create { broadcaster_user_id: text, transport: transport@ }));
                create = create.push(text);
            }
        }
        i = i + 1;
    }
    proof {
        assert(listed.take(i as int) =~= listed);
        assert forall|t: Seq<char>|
            create.to_set().contains(t) == expected@.difference(existing@.dom()).contains(t) by {
            assert(create.contains(t) <==> listed.contains(t) && !existing@.contains_key(t));
            assert(listed.to_set().contains(t) == listed.contains(t));
        }
        assert(create.to_set() =~= expected@.difference(existing@.dom()));
    }
    requests
}

/// The requests to drop the subscriptions of the expected broadcasters that have one.
fn to_unsubscribe(existing: &StringMap, expected: &StringSet) -> (requests: Vec<Request>)
    ensures
        exists|delete: Seq<Seq<char>>|
            {
                &&& request_views(requests@) == #[trigger] delete_requests(delete, existing@)
                &&& is_listing(delete, expected@.intersect(existing@.dom()))
            },
{
    let mut requests: Vec<Request> = Vec::new();
    let entries = existing.entries();
    let ghost listed = entry_texts(entries@);
    let ghost mut delete: Seq<Seq<char>> = Seq::empty();
    let mut i: usize = 0;
    assert(request_views(requests@) =~= delete_requests(delete, existing@));
    while i < entries.len()
        invariant
            i <= entries.len(),
            listed == entry_texts(entries@),
            lists(listed, existing@),
            request_views(requests@) == delete_requests(delete, existing@),
            delete.no_duplicates(),
            forall|text: Seq<char>| #[trigger]
                delete.contains(text) <==> expected@.contains(text) && exists|j: int|
                    0 <= j < i && (#[trigger] listed[j]).0 == text,
        decreases entries.len() - i,
    {
        let ghost text = listed[i as int].0;
        proof {
            assert(!delete.contains(text)) by {
                if delete.contains(text) {
                    let j = choose|j: int| 0 <= j < i && (#[trigger] listed[j]).0 == text;
                    assert(listed[j].0 != listed[i as int].0);
                }
            }
            lemma_push(delete, text);
        }
        if expected.contains(&entries[i].0) {
            let ghost before = request_views(requests@);
            requests.push(Request::Delete { id: entries[i].1.clone() });
            proof {
                assert(request_views(requests@) =~= before.push(requests@.last()@));
                assert(delete_requests(delete.push(text), existing@) =~= delete_requests(delete, existing@).push(
                    RequestView::Delete { id: existing@[text] },
                ));
                delete = delete.push(text);
            }
        }
        i = i + 1;
    }
    proof {
        assert forall|t: Seq<char>|
            delete.to_set().contains(t) == expected@.intersect(existing@.dom()).contains(t) by {
            assert(delete.to_set().contains(t) == delete.contains(t));
            if existing@.contains_key(t) {
                let j = choose|j: int| 0 <= j < listed.len() && (#[trigger] listed[j]).0 == t;
                assert(0 <= j < i && listed[j].0 == t);
            }
        }
        assert(delete.to_set() =~= expected@.intersect(existing@.dom()));
    }
    requests
}

/// What a check asks of Twitch, where `existing` gives the subscription id of each broadcaster that
/// has a subscription, and `expected` are the broadcasters that users subscribed to.
pub fn eventsub_register(
    existing: &StringMap,
    expected: &StringSet,
    website: &str,
    sign_secret: &str,
) -> (requests: Vec<Request>)
    ensures
        is_round(
            request_views(requests@),
            existing@,
            expected@,
            TransportView::Webhook { callback: website@, secret: sign_secret@ },
        ),
{
    let transport = Transport::Webhook { callback: website.to_owned(), secret: sign_secret.to_owned() };
    let mut requests = to_subscribe(existing, expected, &transport);
    let ghost created = request_views(requests@);
    let mut deletions = to_unsubscribe(existing, expected);
    let ghost deleted = request_views(deletions@);
    requests.append(&mut deletions);
    assert(request_views(requests@) =~= created + deleted);
    requests
}

/// What is asked of Twitch when a user subscribes to a broadcaster.
pub fn new_subscription(broadcaster_user_id: String, website: &str, sign_secret: &str) -> (request: Request)
    ensures
        request@ == (RequestView::Create {
            broadcaster_user_id: broadcaster_user_id@,
            transport: TransportView::Webhook { callback: website@, secret: sign_secret@ },
        }),
{
    Request::Create {
        broadcaster_user_id,
        transport: Transport::Webhook { callback: website.to_owned(), secret: sign_secret.to_owned() },
    }
}

/// `registered` without the subscription `id`.
pub open spec fn without(registered: Map<Seq<char>, Seq<char>>, id: Seq<char>) -> Map<Seq<char>, Seq<char>> {
    Map::new(
        |broadcaster: Seq<char>|
            registered.contains_key(broadcaster) && registered[broadcaster] != id,
        |broadcaster: Seq<char>| registered[broadcaster],
    )
}

/// The subscriptions that are registered once Twitch has done what is asked of it, where `fresh`
/// gives the ids of new subscriptions.
pub open spec fn granted(
    registered: Map<Seq<char>, Seq<char>>,
    requests: Seq<RequestView>,
    fresh: spec_fn(Seq<char>) -> Seq<char>,
) -> Map<Seq<char>, Seq<char>>
    decreases requests.len(),
{
    if requests.len() == 0 {
        registered
    } else {
        let before = granted(registered, requests.drop_last(), fresh);
        match requests.last() {
            RequestView::Create { broadcaster_user_id, transport } => before.insert(
                broadcaster_user_id,
                fresh(broadcaster_user_id),
            ),
            RequestView::Delete { id } => without(before, id),
        }
    }
}

/// Whether no two broadcasters have the same subscription, and new subscriptions get new ids.
pub open spec fn has_distinct_ids(
    registered: Map<Seq<char>, Seq<char>>,
    fresh: spec_fn(Seq<char>) -> Seq<char>,
) -> bool {
    &&& forall|a: Seq<char>, b: Seq<char>|
        registered.contains_key(a) && registered.contains_key(b) && #[trigger] registered[a]
            == #[trigger] registered[b] ==> a == b
    &&& forall|a: Seq<char>, b: Seq<char>|
        registered.contains_key(a) ==> #[trigger] registered[a] != #[trigger] fresh(b)
}

/// Requests are done one after another.
proof fn lemma_granted_concat(
    registered: Map<Seq<char>, Seq<char>>,
    first: Seq<RequestView>,
    second: Seq<RequestView>,
    fresh: spec_fn(Seq<char>) -> Seq<char>,
)
    ensures
        granted(registered, first + second, fresh) == granted(
            granted(registered, first, fresh),
            second,
            fresh,
        ),
    decreases second.len(),
{
    if second.len() == 0 {
        assert(first + second =~= first);
    } else {
        assert((first + second).drop_last() =~= first + second.drop_last());
        lemma_granted_concat(registered, first, second.drop_last(), fresh);
    }
}

/// What asking for broadcasters comes to for one of them.
proof fn lemma_granted_create(
    registered: Map<Seq<char>, Seq<char>>,
    create: Seq<Seq<char>>,
    transport: TransportView,
    fresh: spec_fn(Seq<char>) -> Seq<char>,
    broadcaster: Seq<char>,
)
    ensures
        ({
            let after = granted(registered, create_requests(create, transport), fresh);
            &&& after.contains_key(broadcaster) <==> registered.contains_key(broadcaster) || create.contains(
                broadcaster,
            )
            &&& after.contains_key(broadcaster) ==> after[broadcaster] == if create.contains(broadcaster) {
                fresh(broadcaster)
            } else {
                registered[broadcaster]
            }
        }),
    decreases create.len(),
{
    if create.len() > 0 {
        let first = create.drop_last();
        let requests = create_requests(create, transport);
        lemma_granted_create(registered, first, transport, fresh, broadcaster);
        assert(requests.drop_last() =~= create_requests(first, transport));
        assert(create =~= first.push(create.last()));
        lemma_push(first, create.last());
        assert(requests.last() == RequestView::Create { broadcaster_user_id: create.last(), transport });
        assert(granted(registered, requests, fresh) == granted(
            registered,
            create_requests(first, transport),
            fresh,
        ).insert(create.last(), fresh(create.last())));
    }
}

/// What dropping the subscriptions of broadcasters comes to for one of them.
proof fn lemma_granted_delete(
    registered: Map<Seq<char>, Seq<char>>,
    delete: Seq<Seq<char>>,
    existing: Map<Seq<char>, Seq<char>>,
    fresh: spec_fn(Seq<char>) -> Seq<char>,
    broadcaster: Seq<char>,
)
    ensures
        ({
            let after = granted(registered, delete_requests(delete, existing), fresh);
            &&& after.contains_key(broadcaster) <==> {
                registered.contains_key(broadcaster) && forall|d: Seq<char>| #[trigger]
                    delete.contains(d) ==> registered[broadcaster] != existing[d]
            }
            &&& after.contains_key(broadcaster) ==> after[broadcaster] == registered[broadcaster]
        }),
    decreases delete.len(),
{
    if delete.len() > 0 {
        let first = delete.drop_last();
        let requests = delete_requests(delete, existing);
        lemma_granted_delete(registered, first, existing, fresh, broadcaster);
        assert(requests.drop_last() =~= delete_requests(first, existing));
        assert(delete =~= first.push(delete.last()));
        lemma_push(first, delete.last());
        assert(requests.last() == RequestView::Delete { id: existing[delete.last()] });
        let before = granted(registered, delete_requests(first, existing), fresh);
        assert(granted(registered, requests, fresh) == without(before, existing[delete.last()]));
        assert(delete.contains(delete.last()));
        assert(forall|d: Seq<char>| #[trigger] first.contains(d) ==> delete.contains(d));
        assert(forall|d: Seq<char>| #[trigger]
            delete.contains(d) ==> first.contains(d) || d == delete.last());
    }
}

/// Noting a listing page by page is noting it whole.
pub proof fn law_pages_are_noted_in_turn(
    existing: Map<Seq<char>, Seq<char>>,
    page: Seq<EventSubSubscription>,
    rest: Seq<EventSubSubscription>,
    website: Seq<char>,
)
    requires
        is_named(page, website),
    ensures
        with_listing(existing, page + rest, website) == with_listing(
            with_listing(existing, page, website),
            rest,
            website,
        ),
    decreases page.len(),
{
    if page.len() == 0 {
        assert(page + rest =~= rest);
    } else {
        assert((page + rest)[0] == page[0]);
        assert((page + rest).skip(1) =~= page.skip(1) + rest);
        law_pages_are_noted_in_turn(with_noted(existing, page[0], website), page.skip(1), rest, website);
    }
}

/// Of a listing in which nothing is amiss, the last subscription of a broadcaster is noted; a
/// broadcaster of whom it lists none keeps what was noted before.
pub proof fn law_last_listed_is_noted(
    existing: Map<Seq<char>, Seq<char>>,
    listed: Seq<EventSubSubscription>,
    website: Seq<char>,
    broadcaster: Seq<char>,
)
    requires
        is_named(listed, website),
    ensures
        forall|i: int|
            0 <= i < listed.len() && (#[trigger] listed[i]).is_of(broadcaster, website) && (forall|j: int|
                i < j < listed.len() ==> !(#[trigger] listed[j]).is_of(broadcaster, website)) ==> {
                &&& with_listing(existing, listed, website).contains_key(broadcaster)
                &&& with_listing(existing, listed, website)[broadcaster] == listed[i].id@
            },
        (forall|j: int| 0 <= j < listed.len() ==> !(#[trigger] listed[j]).is_of(broadcaster, website)) ==> {
            &&& with_listing(existing, listed, website).contains_key(broadcaster)
                == existing.contains_key(broadcaster)
            &&& existing.contains_key(broadcaster) ==> with_listing(existing, listed, website)[broadcaster]
                == existing[broadcaster]
        },
    decreases listed.len(),
{
    if listed.len() > 0 {
        let rest = listed.skip(1);
        let first = with_noted(existing, listed[0], website);
        assert forall|j: int| 0 <= j < rest.len() implies rest[j] == listed[j + 1] by {}
        assert forall|j: int| 0 < j < listed.len() implies listed[j] == rest[j - 1] by {}
        law_last_listed_is_noted(first, rest, website, broadcaster);
        assert(with_listing(existing, listed, website) == with_listing(first, rest, website));
        assert forall|i: int|
            0 <= i < listed.len() && (#[trigger] listed[i]).is_of(broadcaster, website) && (forall|j: int|
                i < j < listed.len() ==> !(#[trigger] listed[j]).is_of(broadcaster, website)) implies {
            &&& with_listing(existing, listed, website).contains_key(broadcaster)
            &&& with_listing(existing, listed, website)[broadcaster] == listed[i].id@
        } by {
            if i > 0 {
                assert(rest[i - 1].is_of(broadcaster, website));
                assert forall|j: int| i - 1 < j < rest.len() implies !(#[trigger] rest[j]).is_of(
                    broadcaster,
                    website,
                ) by {
                    assert(rest[j] == listed[j + 1]);
                }
            } else {
                assert forall|j: int| 0 <= j < rest.len() implies !(#[trigger] rest[j]).is_of(
                    broadcaster,
                    website,
                ) by {
                    assert(rest[j] == listed[j + 1]);
                }
            }
        }
        if forall|j: int| 0 <= j < listed.len() ==> !(#[trigger] listed[j]).is_of(broadcaster, website) {
            assert(!listed[0].is_of(broadcaster, website));
            assert forall|j: int| 0 <= j < rest.len() implies !(#[trigger] rest[j]).is_of(
                broadcaster,
                website,
            ) by {
                assert(rest[j] == listed[j + 1]);
            }
        }
    }
}

/// A check, once Twitch has done what it asks, leaves registered the broadcasters that were expected
/// or registered before, but not both; those that were registered keep their subscriptions.
pub proof fn law_round_exchanges(
    requests: Seq<RequestView>,
    existing: Map<Seq<char>, Seq<char>>,
    expected: Set<Seq<char>>,
    transport: TransportView,
    fresh: spec_fn(Seq<char>) -> Seq<char>,
)
    requires
        is_round(requests, existing, expected, transport),
        has_distinct_ids(existing, fresh),
    ensures
        granted(existing, requests, fresh).dom() == expected.difference(existing.dom()).union(
            existing.dom().difference(expected),
        ),
        forall|b: Seq<char>| #[trigger]
            granted(existing, requests, fresh).contains_key(b) && existing.contains_key(b) ==> granted(
                existing,
                requests,
                fresh,
            )[b] == existing[b],
{
    let (create, delete) = choose|create: Seq<Seq<char>>, delete: Seq<Seq<char>>|
        {
            &&& requests == #[trigger] create_requests(create, transport) + #[trigger] delete_requests(
                delete,
                existing,
            )
            &&& is_listing(create, expected.difference(existing.dom()))
            &&& is_listing(delete, expected.intersect(existing.dom()))
        };
    let created = granted(existing, create_requests(create, transport), fresh);
    let after = granted(existing, requests, fresh);
    lemma_granted_concat(existing, create_requests(create, transport), delete_requests(delete, existing), fresh);
    assert forall|b: Seq<char>|
        {
            &&& #[trigger] after.contains_key(b) <==> {
                ||| expected.contains(b) && !existing.contains_key(b)
                ||| existing.contains_key(b) && !expected.contains(b)
            }
            &&& existing.contains_key(b) && !expected.contains(b) ==> after[b] == existing[b]
        } by {
        lemma_granted_create(existing, create, transport, fresh, b);
        lemma_granted_delete(created, delete, existing, fresh, b);
        assert(create.to_set().contains(b) == create.contains(b));
        assert(delete.to_set().contains(b) == delete.contains(b));
        assert forall|d: Seq<char>| #[trigger] delete.contains(d) implies existing.contains_key(d)
            && expected.contains(d) by {
            assert(delete.to_set().contains(d));
        }
    }
    assert(after.dom() =~= expected.difference(existing.dom()).union(existing.dom().difference(expected)));
}

/// A check of which no expected broadcaster is registered yet, once Twitch has done what it asks,
/// leaves each of them registered, along with all that were.
pub proof fn law_round_registers_the_expected(
    requests: Seq<RequestView>,
    existing: Map<Seq<char>, Seq<char>>,
    expected: Set<Seq<char>>,
    transport: TransportView,
    fresh: spec_fn(Seq<char>) -> Seq<char>,
)
    requires
        is_round(requests, existing, expected, transport),
        has_distinct_ids(existing, fresh),
        expected.disjoint(existing.dom()),
    ensures
        granted(existing, requests, fresh).dom() == expected.union(existing.dom()),
{
    law_round_exchanges(requests, existing, expected, transport, fresh);
    assert(granted(existing, requests, fresh).dom() =~= expected.union(existing.dom()));
}

/// Where a single broadcaster is expected, and has no subscription, a check asks just what is asked
/// when a user subscribes to them.
pub proof fn law_check_asks_as_subscribing_does(
    requests: Seq<RequestView>,
    existing: Map<Seq<char>, Seq<char>>,
    broadcaster_user_id: Seq<char>,
    transport: TransportView,
)
    requires
        is_round(requests, existing, set![broadcaster_user_id], transport),
        !existing.contains_key(broadcaster_user_id),
    ensures
        requests == seq![RequestView::Create { broadcaster_user_id, transport }],
{
    let expected = set![broadcaster_user_id];
    let (create, delete) = choose|create: Seq<Seq<char>>, delete: Seq<Seq<char>>|
        {
            &&& requests == #[trigger] create_requests(create, transport) + #[trigger] delete_requests(
                delete,
                existing,
            )
            &&& is_listing(create, expected.difference(existing.dom()))
            &&& is_listing(delete, expected.intersect(existing.dom()))
        };
    assert(delete.len() == 0) by {
        if delete.len() > 0 {
            assert(delete.contains(delete[0]));
            assert(delete.to_set().contains(delete[0]));
        }
    }
    assert forall|i: int| 0 <= i < create.len() implies create[i] == broadcaster_user_id by {
        assert(create.contains(create[i]));
        assert(create.to_set().contains(create[i]));
    }
    assert(create.to_set().contains(broadcaster_user_id));
    assert(create.contains(broadcaster_user_id));
    assert(create.len() == 1) by {
        if create.len() > 1 {
            assert(create[0] == create[1]);
        }
    }
}

/// A second check, with the same broadcasters expected, undoes the first: it leaves registered the
/// broadcasters that were before both.
pub proof fn law_second_round_undoes_the_first(
    first: Seq<RequestView>,
    second: Seq<RequestView>,
    existing: Map<Seq<char>, Seq<char>>,
    expected: Set<Seq<char>>,
    transport: TransportView,
    fresh: spec_fn(Seq<char>) -> Seq<char>,
    later: spec_fn(Seq<char>) -> Seq<char>,
)
    requires
        is_round(first, existing, expected, transport),
        has_distinct_ids(existing, fresh),
        is_round(second, granted(existing, first, fresh), expected, transport),
        has_distinct_ids(granted(existing, first, fresh), later),
    ensures
        granted(granted(existing, first, fresh), second, later).dom() == existing.dom(),
{
    law_round_exchanges(first, existing, expected, transport, fresh);
    let between = granted(existing, first, fresh);
    law_round_exchanges(second, between, expected, transport, later);
    assert(granted(between, second, later).dom() =~= existing.dom());
}

/// A subscription counts as one to a broadcaster's stream going online at `website` exactly when
/// Twitch delivers it there, its version is 1, it is of that type, and its condition names that
/// broadcaster, as a text; and as unnamed exactly when all but the last holds, and its condition names
/// nobody.
pub proof fn law_subscriptions_are_told_apart(
    subscription: EventSubSubscription,
    website: Seq<char>,
    broadcaster: Seq<char>,
)
    ensures
        ({
            let ours = subscription.callback is Some && subscription.callback.unwrap()@ == website
                && subscription.version@ == "1"@ && subscription.type_@ == "stream.online"@;
            let members = string_members(subscription.condition);
            &&& subscription.is_of(broadcaster, website) <==> ours && members.contains_key(
                "broadcaster_user_id"@,
            ) && members["broadcaster_user_id"@] == broadcaster
            &&& subscription.is_unnamed_at(website) <==> ours && !members.contains_key("broadcaster_user_id"@)
        }),
{
}

/// Noting a subscription gives its broadcaster its id, where it counts and names one; every other
/// broadcaster keeps what was noted of them.
pub proof fn law_noting_is_for_one_broadcaster(
    existing: Map<Seq<char>, Seq<char>>,
    subscription: EventSubSubscription,
    website: Seq<char>,
    broadcaster: Seq<char>,
)
    ensures
        ({
            let noted = with_noted(existing, subscription, website);
            if subscription.callback is Some && subscription.callback.unwrap()@ == website
                && subscription.version@ == "1"@ && subscription.type_@ == "stream.online"@ && string_members(
                subscription.condition,
            ).contains_key("broadcaster_user_id"@) && string_members(subscription.condition)["broadcaster_user_id"@]
                == broadcaster {
                noted.contains_key(broadcaster) && noted[broadcaster] == subscription.id@
            } else {
                &&& noted.contains_key(broadcaster) <==> existing.contains_key(broadcaster)
                &&& existing.contains_key(broadcaster) ==> noted[broadcaster] == existing[broadcaster]
            }
        }),
{
}

/// Noting nothing changes nothing; noting a listing is noting its first subscription and then the
/// rest, unless the first should name a broadcaster and does not, which ends it; and a listing is in
/// order exactly when each of its subscriptions is.
pub proof fn law_listings_are_noted_from_the_front(
    existing: Map<Seq<char>, Seq<char>>,
    first: EventSubSubscription,
    rest: Seq<EventSubSubscription>,
    website: Seq<char>,
)
    ensures
        with_listing(existing, Seq::empty(), website) == existing,
        first.is_unnamed_at(website) ==> with_listing(existing, seq![first] + rest, website) == existing,
        !first.is_unnamed_at(website) ==> with_listing(existing, seq![first] + rest, website) == with_listing(
            with_noted(existing, first, website),
            rest,
            website,
        ),
        is_named(Seq::empty(), website),
        is_named(seq![first] + rest, website) <==> !first.is_unnamed_at(website) && is_named(rest, website),
{
    let listed = seq![first] + rest;
    assert(listed[0] == first);
    assert(listed.skip(1) =~= rest);
    if is_named(listed, website) {
        assert(!listed[0].is_unnamed_at(website));
        assert forall|i: int| 0 <= i < rest.len() implies !(#[trigger] rest[i]).is_unnamed_at(website) by {
            assert(rest[i] == listed[i + 1]);
        }
    }
    if !first.is_unnamed_at(website) && is_named(rest, website) {
        assert forall|i: int| 0 <= i < listed.len() implies !(#[trigger] listed[i]).is_unnamed_at(website) by {
            if i > 0 {
                assert(listed[i] == rest[i - 1]);
            }
        }
    }
}

/// A check asks for a broadcaster exactly when they are expected and not registered, and once, and
/// over the given transport; it drops a subscription exactly when it is that of a broadcaster who is
/// expected and registered; it asks before it drops; and it makes one request for each broadcaster who
/// is expected, no more and no less.
pub proof fn law_rounds_treat_each_broadcaster(
    requests: Seq<RequestView>,
    existing: Map<Seq<char>, Seq<char>>,
    expected: Set<Seq<char>>,
    transport: TransportView,
)
    requires
        is_round(requests, existing, expected, transport),
    ensures
        expected.finite(),
        requests.len() == expected.len(),
        forall|broadcaster: Seq<char>|
            #[trigger] requests.contains(
                RequestView::Create { broadcaster_user_id: broadcaster, transport },
            ) <==> expected.contains(broadcaster) && !existing.contains_key(broadcaster),
        forall|i: int|
            0 <= i < requests.len() ==> (#[trigger] requests[i] matches RequestView::Create {
                broadcaster_user_id,
                transport: over,
            } ==> over == transport),
        forall|i: int, j: int|
            0 <= i < j < requests.len() && #[trigger] requests[i] is Create ==> #[trigger] requests[j]
                != requests[i],
        forall|i: int, j: int|
            0 <= i < j < requests.len() && #[trigger] requests[i] is Delete ==> #[trigger] requests[j] is Delete,
        forall|id: Seq<char>|
            #[trigger] requests.contains(RequestView::Delete { id }) <==> exists|broadcaster: Seq<char>|
                expected.contains(broadcaster) && existing.contains_key(broadcaster) && #[trigger] existing[broadcaster]
                    == id,
{
    let (create, delete) = choose|create: Seq<Seq<char>>, delete: Seq<Seq<char>>|
        {
            &&& requests == #[trigger] create_requests(create, transport) + #[trigger] delete_requests(
                delete,
                existing,
            )
            &&& is_listing(create, expected.difference(existing.dom()))
            &&& is_listing(delete, expected.intersect(existing.dom()))
        };
    let creates = create_requests(create, transport);
    create.unique_seq_to_set();
    delete.unique_seq_to_set();
    vstd::seq_lib::seq_to_set_is_finite(create);
    vstd::seq_lib::seq_to_set_is_finite(delete);
    vstd::set_lib::lemma_set_disjoint_lens(create.to_set(), delete.to_set());
    assert(create.to_set() + delete.to_set() =~= expected);
    assert forall|broadcaster: Seq<char>|
        #[trigger] requests.contains(RequestView::Create { broadcaster_user_id: broadcaster, transport })
            <==> expected.contains(broadcaster) && !existing.contains_key(broadcaster) by {
        let request = RequestView::Create { broadcaster_user_id: broadcaster, transport };
        assert(create.to_set().contains(broadcaster) <==> create.contains(broadcaster));
        if requests.contains(request) {
            let i = requests.lemma_contains_to_index(request);
            assert(i < create.len());
            assert(create[i] == broadcaster);
        }
        if create.contains(broadcaster) {
            let i = create.lemma_contains_to_index(broadcaster);
            assert(requests[i] == request);
        }
    }
    assert forall|i: int, j: int| 0 <= i < j < requests.len() && #[trigger] requests[i] is Create implies
        #[trigger] requests[j] != requests[i] by {
        if j < create.len() {
            assert(create[i] != create[j]);
        }
    }
    assert forall|id: Seq<char>|
        #[trigger] requests.contains(RequestView::Delete { id }) <==> exists|broadcaster: Seq<char>|
            expected.contains(broadcaster) && existing.contains_key(broadcaster) && #[trigger] existing[broadcaster]
                == id by {
        let request = RequestView::Delete { id };
        if requests.contains(request) {
            let i = requests.lemma_contains_to_index(request);
            assert(i >= create.len());
            let broadcaster = delete[i - create.len()];
            assert(delete.contains(broadcaster));
            assert(delete.to_set().contains(broadcaster));
            assert(existing[broadcaster] == id);
        }
        if exists|broadcaster: Seq<char>|
            expected.contains(broadcaster) && existing.contains_key(broadcaster) && #[trigger] existing[broadcaster]
                == id {
            let broadcaster = choose|broadcaster: Seq<char>|
                expected.contains(broadcaster) && existing.contains_key(broadcaster)
                    && #[trigger] existing[broadcaster] == id;
            assert(delete.to_set().contains(broadcaster));
            let i = delete.lemma_contains_to_index(broadcaster);
            assert(requests[create.len() + i] == request);
        }
    }
}

/// What is said of transports and requests is what they hold.
pub proof fn law_requests_say_what_they_hold(transport: Transport, request: Request, requests: Seq<Request>)
    ensures
        match transport {
            Transport::Webhook { callback, secret } => transport@ matches TransportView::Webhook {
                callback: c,
                secret: s,
            } && c == callback@ && s == secret@,
            Transport::Websocket { session_id } => transport@ matches TransportView::Websocket { session_id: s }
                && s == session_id@,
        },
        match request {
            Request::Create { broadcaster_user_id, transport } => request@ matches RequestView::Create {
                broadcaster_user_id: b,
                transport: t,
            } && b == broadcaster_user_id@ && t == transport@,
            Request::Delete { id } => request@ matches RequestView::Delete { id: i } && i == id@,
        },
        request_views(requests).len() == requests.len(),
        forall|i: int| 0 <= i < requests.len() ==> #[trigger] request_views(requests)[i] == requests[i]@,
{
}

} // verus!
