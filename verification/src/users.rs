//! What users subscribe to, and the commands by which they do.
use vstd::prelude::*;

use crate::collections::StringSet;
use crate::text::{join, joined, law_joined_text_holds_every_part, offset, texts};

verus! {

/// What is stored of a user.
pub struct UserData {
    /// The user's Discord id.
    pub key: u64,
    /// The ids of the streamers that the user subscribed to.
    pub subscriptions: StringSet,
}

/// What a [`UserData`] says.
pub struct UserDataView {
    pub key: u64,
    pub subscriptions: Set<Seq<char>>,
}

impl View for UserData {
    type V = UserDataView;

    open spec fn view(&self) -> UserDataView {
        UserDataView { key: self.key, subscriptions: self.subscriptions@ }
    }
}

impl UserDataView {
    /// The user, subscribed to `broadcaster_id` too.
    pub open spec fn subscribed(self, broadcaster_id: Seq<char>) -> UserDataView {
        UserDataView { subscriptions: self.subscriptions.insert(broadcaster_id), ..self }
    }

    /// The user, no longer subscribed to `broadcaster_id`.
    pub open spec fn unsubscribed(self, broadcaster_id: Seq<char>) -> UserDataView {
        UserDataView { subscriptions: self.subscriptions.remove(broadcaster_id), ..self }
    }
}

impl UserData {
    /// A user who has not subscribed to anyone.
    pub fn new(key: u64) -> (data: UserData)
        ensures
            data@ == (UserDataView { key, subscriptions: Set::empty() }),
    {
        UserData { key, subscriptions: StringSet::new() }
    }

    /// Subscribes the user to a streamer, and says whether that is new.
    pub fn subscribe(&mut self, broadcaster_id: String) -> (fresh: bool)
        ensures
            final(self)@ == old(self)@.subscribed(broadcaster_id@),
            fresh == !old(self)@.subscriptions.contains(broadcaster_id@),
    {
        self.subscriptions.insert(broadcaster_id)
    }

    /// Ends the user's subscription to a streamer, and says whether there was one.
    pub fn unsubscribe(&mut self, broadcaster_id: &String) -> (found: bool)
        ensures
            final(self)@ == old(self)@.unsubscribed(broadcaster_id@),
            found == old(self)@.subscriptions.contains(broadcaster_id@),
    {
        self.subscriptions.remove(broadcaster_id)
    }
}

/// One entry of the view [`Subscriptions`]: a streamer, and users who subscribed to them.
pub struct Mapping {
    /// The streamer's id.
    pub key: String,
    /// The Discord ids of users.
    pub value: Vec<u64>,
}

/// What a [`Mapping`] says.
pub struct MappingView {
    pub key: Seq<char>,
    pub value: Seq<u64>,
}

impl View for Mapping {
    type V = MappingView;

    open spec fn view(&self) -> MappingView {
        MappingView { key: self.key@, value: self.value@ }
    }
}

/// What mappings say.
pub open spec fn mapping_views(mappings: Seq<Mapping>) -> Seq<MappingView> {
    mappings.map_values(|mapping: Mapping| mapping@)
}

/// Whether `mappings` holds, for each streamer that the user subscribed to, one entry, and nothing
/// else; in any order.
pub open spec fn maps(user: UserDataView, mappings: Seq<MappingView>) -> bool {
    let keys = mappings.map_values(|mapping: MappingView| mapping.key);
    &&& keys.no_duplicates()
    &&& keys.to_set() == user.subscriptions
    &&& forall|i: int| 0 <= i < mappings.len() ==> (#[trigger] mappings[i]).value == seq![user.key]
}

/// The values of `mappings`, one after another.
pub open spec fn values(mappings: Seq<MappingView>) -> Seq<u64> {
    mappings.map_values(|mapping: MappingView| mapping.value).flatten()
}

/// The view of who subscribed to each streamer.
pub struct Subscriptions;

impl Subscriptions {
    /// The entries of one user.
    pub fn map(&self, document: &UserData) -> (mappings: Vec<Mapping>)
        ensures
            maps(document@, mapping_views(mappings@)),
    {
        let mut mappings: Vec<Mapping> = Vec::new();
        let user_ids = document.subscriptions.items();
        let ghost listed = texts(user_ids@);
        let mut i: usize = 0;
        while i < user_ids.len()
            invariant
                i <= user_ids.len(),
                listed == texts(user_ids@),
                mappings.len() == i,
                forall|j: int|
                    0 <= j < i ==> (#[trigger] mapping_views(mappings@)[j]).key == listed[j]
                        && mapping_views(mappings@)[j].value == seq![document.key],
            decreases user_ids.len() - i,
        {
            let mut value: Vec<u64> = Vec::new();
            value.push(document.key);
            assert(value@ =~= seq![document.key]);
            let ghost before = mapping_views(mappings@);
            mappings.push(Mapping { key: user_ids[i].clone(), value });
            assert(mapping_views(mappings@) =~= before.push(mappings@.last()@));
            i = i + 1;
        }
        assert(mapping_views(mappings@).map_values(|mapping: MappingView| mapping.key) =~= listed);
        mappings
    }

    /// The users of entries of the same streamer.
    pub fn reduce(&self, mappings: &Vec<Mapping>) -> (value: Vec<u64>)
        ensures
            value@ == values(mapping_views(mappings@)),
    {
        let mut value: Vec<u64> = Vec::new();
        let ghost all = mapping_views(mappings@).map_values(|mapping: MappingView| mapping.value);
        let mut i: usize = 0;
        assert(all.take(0) =~= Seq::<Seq<u64>>::empty());
        while i < mappings.len()
            invariant
                i <= mappings.len(),
                all == mapping_views(mappings@).map_values(|mapping: MappingView| mapping.value),
                value@ == all.take(i as int).flatten(),
            decreases mappings.len() - i,
        {
            let mut k: usize = 0;
            let ghost before = value@;
            while k < mappings[i].value.len()
                invariant
                    i < mappings.len(),
                    k <= mappings[i as int].value.len(),
                    value@ == before + mappings[i as int].value@.take(k as int),
                decreases mappings[i as int].value.len() - k,
            {
                value.push(mappings[i].value[k]);
                assert(value@ =~= before + mappings[i as int].value@.take(k + 1));
                k = k + 1;
            }
            proof {
                assert(mappings[i as int].value@.take(k as int) =~= all[i as int]);
                assert(all.take(i + 1) =~= all.take(i as int).push(all[i as int]));
                all.take(i as int).lemma_flatten_push(all[i as int]);
            }
            i = i + 1;
        }
        assert(all.take(i as int) =~= all);
        value
    }
}

/// The streamers of `mappings`.
pub open spec fn keys(mappings: Seq<MappingView>) -> Set<Seq<char>> {
    mappings.map_values(|mapping: MappingView| mapping.key).to_set()
}

/// The streamers of entries, each once.
pub fn streamers(mappings: &Vec<Mapping>) -> (streamers: StringSet)
    ensures
        streamers@ == keys(mapping_views(mappings@)),
{
    let mut listed: Vec<String> = Vec::new();
    let mut i: usize = 0;
    while i < mappings.len()
        invariant
            i <= mappings.len(),
            listed.len() == i,
            forall|j: int| 0 <= j < i ==> (#[trigger] listed[j])@ == mappings[j].key@,
        decreases mappings.len() - i,
    {
        listed.push(mappings[i].key.clone());
        i = i + 1;
    }
    assert(texts(listed@) =~= mapping_views(mappings@).map_values(|mapping: MappingView| mapping.key));
    StringSet::collect(listed)
}

/// A streamer's channel.
pub struct Channel {
    /// The streamer's id.
    pub broadcaster_id: String,
    /// The name under which the streamer is shown.
    pub broadcaster_name: String,
}

/// What a [`Channel`] says.
pub struct ChannelView {
    pub broadcaster_id: Seq<char>,
    pub broadcaster_name: Seq<char>,
}

impl View for Channel {
    type V = ChannelView;

    open spec fn view(&self) -> ChannelView {
        ChannelView { broadcaster_id: self.broadcaster_id@, broadcaster_name: self.broadcaster_name@ }
    }
}

/// What an optional [`Channel`] says.
pub open spec fn optional_channel(channel: Option<Channel>) -> Option<ChannelView> {
    match channel {
        Some(channel) => Some(channel@),
        None => None,
    }
}

/// The names of channels.
pub open spec fn names(channels: Seq<Channel>) -> Seq<Seq<char>> {
    channels.map_values(|channel: Channel| channel.broadcaster_name@)
}

/// The reply to a command that names a streamer who is not known.
pub open spec fn unknown_streamer(streamer: Seq<char>) -> Seq<char> {
    "404: No such streamer: `"@ + streamer + "`"@
}

/// The reply to a command that names a streamer who is not known.
fn no_such_streamer(streamer: &str) -> (reply: String)
    ensures
        reply@ == unknown_streamer(streamer@),
{
    "404: No such streamer: `".to_string().concat(streamer).concat("`")
}

/// How far the command to subscribe has come.
pub enum Subscribing {
    /// The streamer that `author` named was looked up; `lookup` is their channel, if there is one.
    Found { streamer: String, author: u64, lookup: Option<Channel> },
    /// The user is stored, from now on or already.
    Stored { author: u64, channel: Channel },
    /// What is stored of the user was looked up; `found` is whether there is anything.
    Loaded { found: bool, channel: Channel },
    /// The user is subscribed.
    Saved { channel: Channel },
    /// The streamer is watched.
    Announced { channel: Channel },
}

/// What a [`Subscribing`] says.
pub enum SubscribingView {
    Found { streamer: Seq<char>, author: u64, lookup: Option<ChannelView> },
    Stored { author: u64, channel: ChannelView },
    Loaded { found: bool, channel: ChannelView },
    Saved { channel: ChannelView },
    Announced { channel: ChannelView },
}

impl View for Subscribing {
    type V = SubscribingView;

    open spec fn view(&self) -> SubscribingView {
        match self {
            Subscribing::Found { streamer, author, lookup } => SubscribingView::Found {
                streamer: streamer@,
                author: *author,
                lookup: optional_channel(*lookup),
            },
            Subscribing::Stored { author, channel } => SubscribingView::Stored {
                author: *author,
                channel: channel@,
            },
            Subscribing::Loaded { found, channel } => SubscribingView::Loaded {
                found: *found,
                channel: channel@,
            },
            Subscribing::Saved { channel } => SubscribingView::Saved { channel: channel@ },
            Subscribing::Announced { channel } => SubscribingView::Announced { channel: channel@ },
        }
    }
}

/// What to do next to subscribe a user.
pub enum SubscribeAction {
    /// Store `document`, unless something is stored under its key already.
    Store { document: UserData, channel: Channel },
    /// Look up what is stored under `key`.
    Load { key: u64, channel: Channel },
    /// Subscribe the stored user to the streamer `broadcaster_id`.
    Save { broadcaster_id: String, channel: Channel },
    /// Have the streamer `broadcaster_id` watched.
    Announce { broadcaster_id: String, channel: Channel },
    /// Reply, and be done.
    Say { reply: String },
    /// Give up: nothing is stored of the user.
    Missing,
}

/// What a [`SubscribeAction`] says.
pub enum SubscribeActionView {
    Store { document: UserDataView, channel: ChannelView },
    Load { key: u64, channel: ChannelView },
    Save { broadcaster_id: Seq<char>, channel: ChannelView },
    Announce { broadcaster_id: Seq<char>, channel: ChannelView },
    Say { reply: Seq<char> },
    Missing,
}

impl View for SubscribeAction {
    type V = SubscribeActionView;

    open spec fn view(&self) -> SubscribeActionView {
        match self {
            SubscribeAction::Store { document, channel } => SubscribeActionView::Store {
                document: document@,
                channel: channel@,
            },
            SubscribeAction::Load { key, channel } => SubscribeActionView::Load {
                key: *key,
                channel: channel@,
            },
            SubscribeAction::Save { broadcaster_id, channel } => SubscribeActionView::Save {
                broadcaster_id: broadcaster_id@,
                channel: channel@,
            },
            SubscribeAction::Announce { broadcaster_id, channel } => SubscribeActionView::Announce {
                broadcaster_id: broadcaster_id@,
                channel: channel@,
            },
            SubscribeAction::Say { reply } => SubscribeActionView::Say { reply: reply@ },
            SubscribeAction::Missing => SubscribeActionView::Missing,
        }
    }
}

/// What to do next to subscribe a user, when the command has come so far.
pub open spec fn next(progress: SubscribingView) -> SubscribeActionView {
    match progress {
        SubscribingView::Found { streamer, author, lookup: None } => SubscribeActionView::Say {
            reply: unknown_streamer(streamer),
        },
        SubscribingView::Found { streamer, author, lookup: Some(channel) } => SubscribeActionView::Store {
            document: UserDataView { key: author, subscriptions: Set::empty() },
            channel,
        },
        SubscribingView::Stored { author, channel } => SubscribeActionView::Load { key: author, channel },
        SubscribingView::Loaded { found, channel } => if found {
            SubscribeActionView::Save { broadcaster_id: channel.broadcaster_id, channel }
        } else {
            SubscribeActionView::Missing
        },
        SubscribingView::Saved { channel } => SubscribeActionView::Announce {
            broadcaster_id: channel.broadcaster_id,
            channel,
        },
        SubscribingView::Announced { channel } => SubscribeActionView::Say {
            reply: "Subscribed to "@ + channel.broadcaster_name,
        },
    }
}

/// What to do next when a user asks to be told when a streamer goes live: store that, have the
/// streamer watched, and say so; or say that there is no such streamer.
pub fn subscribe(progress: Subscribing) -> (action: SubscribeAction)
    ensures
        action@ == next(progress@),
{
    match progress {
        Subscribing::Found { streamer, author, lookup: None } => SubscribeAction::Say {
            reply: no_such_streamer(streamer.as_str()),
        },
        Subscribing::Found { streamer, author, lookup: Some(channel) } => SubscribeAction::Store {
            document: UserData::new(author),
            channel,
        },
        Subscribing::Stored { author, channel } => SubscribeAction::Load { key: author, channel },
        Subscribing::Loaded { found, channel } => if found {
            SubscribeAction::Save { broadcaster_id: channel.broadcaster_id.clone(), channel }
        } else {
            SubscribeAction::Missing
        },
        Subscribing::Saved { channel } => SubscribeAction::Announce {
            broadcaster_id: channel.broadcaster_id.clone(),
            channel,
        },
        Subscribing::Announced { channel } => SubscribeAction::Say {
            reply: "Subscribed to ".to_string().concat(channel.broadcaster_name.as_str()),
        },
    }
}

/// What to do when a user asks to be told no more when a streamer goes live.
pub enum Unsubscribing {
    /// There is no such streamer: say so.
    Unknown { reply: String },
    /// End the subscription of the stored user, if one is stored, to the streamer `broadcaster_id`;
    /// then reply.
    Known { broadcaster_id: String, reply: String },
}

/// What to do when a user asks to be told no more when `streamer` goes live, where `channel` is what
/// looking the streamer up gives.
pub fn unsubscribe(streamer: &str, channel: Option<Channel>) -> (action: Unsubscribing)
    ensures
        match channel {
            Some(channel) => action matches Unsubscribing::Known { broadcaster_id, reply }
                && broadcaster_id@ == channel.broadcaster_id@ && reply@ == "Unsubscribed from "@
                + channel.broadcaster_name@,
            None => action matches Unsubscribing::Unknown { reply } && reply@ == unknown_streamer(streamer@),
        },
{
    match channel {
        Some(channel) => Unsubscribing::Known {
            broadcaster_id: channel.broadcaster_id,
            reply: "Unsubscribed from ".to_string().concat(channel.broadcaster_name.as_str()),
        },
        None => Unsubscribing::Unknown { reply: no_such_streamer(streamer) },
    }
}

/// What to do when a user asks what they are subscribed to.
pub enum Listing {
    /// Say that there is nothing.
    Nothing { reply: String },
    /// Look these channels up, and list them.
    Channels { broadcaster_ids: Vec<String> },
}

/// What to do when a user asks what they are subscribed to, where `document` is what is stored of the
/// user.
pub fn subscriptions(document: Option<UserData>) -> (listing: Listing)
    ensures
        match document {
            Some(data) => listing matches Listing::Channels { broadcaster_ids }
                && texts(broadcaster_ids@).no_duplicates() && texts(broadcaster_ids@).to_set()
                == data@.subscriptions,
            None => listing matches Listing::Nothing { reply } && reply@
                == "Currently not subscribed anyone."@,
        },
{
    match document {
        Some(data) => Listing::Channels { broadcaster_ids: data.subscriptions.into_items() },
        None => Listing::Nothing { reply: "Currently not subscribed anyone.".to_string() },
    }
}

/// The list of the channels that a user is subscribed to.
pub fn list_channels(channels: &Vec<Channel>) -> (reply: String)
    ensures
        reply@ == "Currently subscribed to: "@ + joined(names(channels@), ", "@),
{
    let mut shown: Vec<String> = Vec::new();
    let mut i: usize = 0;
    while i < channels.len()
        invariant
            i <= channels.len(),
            texts(shown@) == names(channels@).take(i as int),
        decreases channels.len() - i,
    {
        let ghost before = texts(shown@);
        shown.push(channels[i].broadcaster_name.clone());
        proof {
            assert(texts(shown@) =~= before.push(channels[i as int].broadcaster_name@));
            assert(names(channels@).take(i + 1) =~= before.push(channels[i as int].broadcaster_name@));
        }
        i = i + 1;
    }
    assert(names(channels@).take(i as int) =~= names(channels@));
    "Currently subscribed to: ".to_string().concat(join(&shown, ", ").as_str())
}

/// How far the command of `author` has come once an action is done, where `found` is what looking up
/// the user gives; nothing where the command is over.
pub open spec fn follow(action: SubscribeActionView, author: u64, found: bool) -> Option<SubscribingView> {
    match action {
        SubscribeActionView::Store { document, channel } => Some(SubscribingView::Stored { author, channel }),
        SubscribeActionView::Load { key, channel } => Some(SubscribingView::Loaded { found, channel }),
        SubscribeActionView::Save { broadcaster_id, channel } => Some(SubscribingView::Saved { channel }),
        SubscribeActionView::Announce { broadcaster_id, channel } => Some(
            SubscribingView::Announced { channel },
        ),
        SubscribeActionView::Say { reply } => None,
        SubscribeActionView::Missing => None,
    }
}

/// How many actions the command has at most ahead of it.
pub open spec fn remaining(progress: SubscribingView) -> nat {
    match progress {
        SubscribingView::Found { streamer, author, lookup } => 5,
        SubscribingView::Stored { author, channel } => 4,
        SubscribingView::Loaded { found, channel } => 3,
        SubscribingView::Saved { channel } => 2,
        SubscribingView::Announced { channel } => 1,
    }
}

/// All that is done for the command of `author`, from where it has come, where `found` is what looking
/// up the user gives.
pub open spec fn actions(progress: SubscribingView, author: u64, found: bool) -> Seq<SubscribeActionView>
    decreases remaining(progress),
{
    let action = next(progress);
    match follow(action, author, found) {
        Some(progress) => seq![action] + actions(progress, author, found),
        None => seq![action],
    }
}

/// A user who names a known streamer is stored, looked up and subscribed; only then is the streamer
/// watched, and the user told. Where nothing is stored of the user, nothing is announced; where the
/// streamer is not known, nothing is done but to say so.
pub proof fn law_subscriptions_are_stored_before_they_are_announced(
    streamer: Seq<char>,
    author: u64,
    channel: ChannelView,
)
    ensures
        actions(SubscribingView::Found { streamer, author, lookup: Some(channel) }, author, true) == seq![
            SubscribeActionView::Store {
                document: UserDataView { key: author, subscriptions: Set::empty() },
                channel,
            },
            SubscribeActionView::Load { key: author, channel },
            SubscribeActionView::Save { broadcaster_id: channel.broadcaster_id, channel },
            SubscribeActionView::Announce { broadcaster_id: channel.broadcaster_id, channel },
            SubscribeActionView::Say { reply: "Subscribed to "@ + channel.broadcaster_name },
        ],
        actions(SubscribingView::Found { streamer, author, lookup: Some(channel) }, author, false) == seq![
            SubscribeActionView::Store {
                document: UserDataView { key: author, subscriptions: Set::empty() },
                channel,
            },
            SubscribeActionView::Load { key: author, channel },
            SubscribeActionView::Missing,
        ],
        forall|found: bool| #[trigger]
            actions(SubscribingView::Found { streamer, author, lookup: None }, author, found) == seq![
                SubscribeActionView::Say { reply: unknown_streamer(streamer) },
            ],
{
    reveal_with_fuel(actions, 5);
}

/// The streamers to watch are those that some user subscribed to, and no others, where `entries` are
/// the entries of each user, and `all` lists them, in any order.
pub proof fn law_subscribed_streamers_are_watched(
    users: Seq<UserDataView>,
    entries: Seq<Seq<MappingView>>,
    all: Seq<MappingView>,
    streamer: Seq<char>,
)
    requires
        entries.len() == users.len(),
        forall|i: int| 0 <= i < users.len() ==> maps(#[trigger] users[i], entries[i]),
        forall|entry: MappingView| #[trigger]
            all.contains(entry) <==> exists|i: int|
                0 <= i < users.len() && (#[trigger] entries[i]).contains(entry),
    ensures
        keys(all).contains(streamer) <==> exists|i: int|
            0 <= i < users.len() && (#[trigger] users[i]).subscriptions.contains(streamer),
{
    let listed = all.map_values(|mapping: MappingView| mapping.key);
    if keys(all).contains(streamer) {
        let j = listed.lemma_contains_to_index(streamer);
        assert(all.contains(all[j]));
        let i = choose|i: int| 0 <= i < users.len() && (#[trigger] entries[i]).contains(all[j]);
        let k = entries[i].lemma_contains_to_index(all[j]);
        assert(maps(users[i], entries[i]));
        let mapped = entries[i].map_values(|mapping: MappingView| mapping.key);
        assert(mapped[k] == streamer);
        assert(mapped.to_set().contains(streamer));
        assert(users[i].subscriptions.contains(streamer));
    }
    if exists|i: int| 0 <= i < users.len() && (#[trigger] users[i]).subscriptions.contains(streamer) {
        let i = choose|i: int|
            0 <= i < users.len() && (#[trigger] users[i]).subscriptions.contains(streamer);
        assert(maps(users[i], entries[i]));
        let mapped = entries[i].map_values(|mapping: MappingView| mapping.key);
        assert(mapped.to_set().contains(streamer));
        let k = mapped.lemma_contains_to_index(streamer);
        assert(entries[i].contains(entries[i][k]));
        let j = all.lemma_contains_to_index(entries[i][k]);
        assert(listed[j] == streamer);
    }
}

/// Subscribing to a streamer twice is the same as once.
pub proof fn law_subscribing_twice_is_subscribing_once(user: UserDataView, broadcaster_id: Seq<char>)
    ensures
        user.subscribed(broadcaster_id).subscribed(broadcaster_id) == user.subscribed(broadcaster_id),
{
    assert(user.subscribed(broadcaster_id).subscriptions.insert(broadcaster_id)
        =~= user.subscribed(broadcaster_id).subscriptions);
}

/// Unsubscribing from a streamer undoes having subscribed, and touches no other subscription.
pub proof fn law_unsubscribing_undoes_subscribing(user: UserDataView, broadcaster_id: Seq<char>)
    ensures
        !user.subscriptions.contains(broadcaster_id) ==> user.subscribed(broadcaster_id).unsubscribed(
            broadcaster_id,
        ) == user,
        forall|other: Seq<char>|
            other != broadcaster_id ==> (user.unsubscribed(broadcaster_id).subscriptions.contains(other)
                <==> user.subscriptions.contains(other)),
{
    if !user.subscriptions.contains(broadcaster_id) {
        assert(user.subscriptions.insert(broadcaster_id).remove(broadcaster_id) =~= user.subscriptions);
    }
}

/// Once a user has subscribed to a streamer, they are subscribed to that streamer, and to any other
/// exactly when they were before; and they stay the same user.
pub proof fn law_subscribing_adds_the_streamer(user: UserDataView, broadcaster_id: Seq<char>)
    ensures
        user.subscribed(broadcaster_id).key == user.key,
        user.subscribed(broadcaster_id).subscriptions.contains(broadcaster_id),
        forall|other: Seq<char>|
            other != broadcaster_id ==> (#[trigger] user.subscribed(broadcaster_id).subscriptions.contains(other)
                <==> user.subscriptions.contains(other)),
{
}

/// Once a user has unsubscribed from a streamer, they are not subscribed to that streamer, and to any
/// other exactly when they were before; and they stay the same user.
pub proof fn law_unsubscribing_removes_the_streamer(user: UserDataView, broadcaster_id: Seq<char>)
    ensures
        user.unsubscribed(broadcaster_id).key == user.key,
        !user.unsubscribed(broadcaster_id).subscriptions.contains(broadcaster_id),
        forall|other: Seq<char>|
            other != broadcaster_id ==> (#[trigger] user.unsubscribed(broadcaster_id).subscriptions.contains(
                other,
            ) <==> user.subscriptions.contains(other)),
{
}

/// What is said of users, channels and entries is what they hold.
pub proof fn law_users_and_channels_say_what_they_hold(
    data: UserData,
    mapping: Mapping,
    mappings: Seq<Mapping>,
    channel: Channel,
    channels: Seq<Channel>,
)
    ensures
        data@.key == data.key,
        data@.subscriptions == data.subscriptions@,
        mapping@.key == mapping.key@,
        mapping@.value == mapping.value@,
        mapping_views(mappings).len() == mappings.len(),
        forall|i: int| 0 <= i < mappings.len() ==> #[trigger] mapping_views(mappings)[i] == mappings[i]@,
        channel@.broadcaster_id == channel.broadcaster_id@,
        channel@.broadcaster_name == channel.broadcaster_name@,
        optional_channel(Some(channel)) == Some(channel@),
        optional_channel(None) is None,
        names(channels).len() == channels.len(),
        forall|i: int| 0 <= i < channels.len() ==> #[trigger] names(channels)[i] == channels[i].broadcaster_name@,
{
}

/// The list of a user's channels holds the name of every channel, in order, with a comma between each
/// two, and nothing else.
pub proof fn law_lists_hold_every_channel(channels: Seq<Channel>, i: int)
    requires
        0 <= i < channels.len(),
    ensures
        ({
            let shown = joined(names(channels), ", "@);
            let start = offset(names(channels), ", "@, i);
            let end = start + channels[i].broadcaster_name@.len();
            &&& 0 <= start <= end <= shown.len()
            &&& shown.subrange(start, end) == channels[i].broadcaster_name@
            &&& i + 1 < channels.len() ==> end + 2 <= shown.len() && shown.subrange(end, end + 2) == ", "@
            &&& i + 1 == channels.len() ==> end == shown.len()
        }),
        offset(names(channels), ", "@, 0) == 0,
        i + 1 < channels.len() ==> offset(names(channels), ", "@, i + 1) == offset(names(channels), ", "@, i)
            + channels[i].broadcaster_name@.len() + 2,
{
    reveal_strlit(", ");
    law_joined_text_holds_every_part(names(channels), ", "@, i);
    assert(offset(names(channels), ", "@, i + 1) == offset(names(channels), ", "@, i)
        + channels[i].broadcaster_name@.len() + 2);
}

/// A user has one entry for each streamer that they subscribed to, which names that user alone, and no
/// others.
pub proof fn law_users_have_an_entry_for_each_streamer(
    user: UserDataView,
    mappings: Seq<MappingView>,
    streamer: Seq<char>,
)
    requires
        maps(user, mappings),
    ensures
        user.subscriptions.contains(streamer) <==> exists|i: int|
            0 <= i < mappings.len() && (#[trigger] mappings[i]).key == streamer,
        forall|i: int, j: int|
            0 <= i < j < mappings.len() ==> (#[trigger] mappings[i]).key != (#[trigger] mappings[j]).key,
        forall|i: int|
            0 <= i < mappings.len() ==> (#[trigger] mappings[i]).value.len() == 1 && mappings[i].value[0]
                == user.key,
{
    let keys = mappings.map_values(|mapping: MappingView| mapping.key);
    assert(keys.to_set().contains(streamer) <==> keys.contains(streamer));
    assert forall|i: int, j: int| 0 <= i < j < mappings.len() implies (#[trigger] mappings[i]).key != (
    #[trigger] mappings[j]).key by {
        assert(keys[i] != keys[j]);
    }
    if keys.contains(streamer) {
        let k = keys.lemma_contains_to_index(streamer);
        assert(mappings[k].key == streamer);
    }
    if exists|i: int| 0 <= i < mappings.len() && (#[trigger] mappings[i]).key == streamer {
        let i = choose|i: int| 0 <= i < mappings.len() && (#[trigger] mappings[i]).key == streamer;
        assert(keys[i] == streamer);
    }
}

/// The users of no entries are none, those of one entry are its own, and those of two lists of entries
/// one after another are those of the one and then those of the other.
pub proof fn law_reducing_concatenates(first: Seq<MappingView>, second: Seq<MappingView>, entry: MappingView)
    ensures
        values(Seq::empty()) == Seq::<u64>::empty(),
        values(seq![entry]) == entry.value,
        values(first + second) == values(first) + values(second),
    decreases second.len(),
{
    let value = |mapping: MappingView| mapping.value;
    assert(Seq::<MappingView>::empty().map_values(value) =~= Seq::<Seq<u64>>::empty());
    assert(seq![entry].map_values(value) =~= Seq::<Seq<u64>>::empty().push(entry.value));
    Seq::<Seq<u64>>::empty().lemma_flatten_push(entry.value);
    assert(values(seq![entry]) =~= entry.value);
    if second.len() == 0 {
        assert(first + second =~= first);
        assert(second.map_values(value) =~= Seq::<Seq<u64>>::empty());
        assert(values(first) + values(second) =~= values(first));
    } else {
        let less = second.drop_last();
        law_reducing_concatenates(first, less, entry);
        assert((first + second).map_values(value) =~= (first + less).map_values(value).push(second.last().value));
        (first + less).map_values(value).lemma_flatten_push(second.last().value);
        assert(second.map_values(value) =~= less.map_values(value).push(second.last().value));
        less.map_values(value).lemma_flatten_push(second.last().value);
        assert(values(first + second) =~= values(first) + values(second));
    }
}

/// The streamers of entries are exactly those that some entry is of.
pub proof fn law_streamers_are_those_of_the_entries(mappings: Seq<MappingView>, streamer: Seq<char>)
    ensures
        keys(mappings).contains(streamer) <==> exists|i: int|
            0 <= i < mappings.len() && (#[trigger] mappings[i]).key == streamer,
{
    let listed = mappings.map_values(|mapping: MappingView| mapping.key);
    if keys(mappings).contains(streamer) {
        let k = listed.lemma_contains_to_index(streamer);
        assert(mappings[k].key == streamer);
    }
    if exists|i: int| 0 <= i < mappings.len() && (#[trigger] mappings[i]).key == streamer {
        let i = choose|i: int| 0 <= i < mappings.len() && (#[trigger] mappings[i]).key == streamer;
        assert(listed[i] == streamer);
    }
}

/// Whoever names a streamer who is not known is told so, with the name that they gave, whole and
/// between backticks.
pub proof fn law_unknown_streamers_are_named(streamer: Seq<char>)
    ensures
        unknown_streamer(streamer).len() == 24 + streamer.len() + 1,
        unknown_streamer(streamer).take(24) == "404: No such streamer: `"@,
        unknown_streamer(streamer).subrange(24, 24 + streamer.len() as int) == streamer,
        unknown_streamer(streamer).last() == '`',
{
    reveal_strlit("404: No such streamer: `");
    reveal_strlit("`");
    assert(unknown_streamer(streamer).take(24) =~= "404: No such streamer: `"@);
    assert(unknown_streamer(streamer).subrange(24, 24 + streamer.len() as int) =~= streamer);
}

/// Whatever the channel, and whoever subscribes to it: it is the user who asks that is stored and
/// looked up, with nothing subscribed to yet; it is the streamer of the channel that is subscribed to
/// and watched; and it is their name that the user is told.
pub proof fn law_subscribing_keeps_to_user_and_channel(
    streamer: Seq<char>,
    author: u64,
    channel: ChannelView,
    found: bool,
)
    ensures
        next(SubscribingView::Found { streamer, author, lookup: Some(channel) }) matches
            SubscribeActionView::Store { document, channel: kept } && document.key == author && kept == channel
            && (forall|s: Seq<char>| !#[trigger] document.subscriptions.contains(s)),
        next(SubscribingView::Found { streamer, author, lookup: None }) matches SubscribeActionView::Say { reply }
            && reply == "404: No such streamer: `"@ + streamer + "`"@,
        next(SubscribingView::Stored { author, channel }) matches SubscribeActionView::Load { key, channel: kept }
            && key == author && kept == channel,
        next(SubscribingView::Loaded { found: true, channel }) matches SubscribeActionView::Save {
            broadcaster_id,
            channel: kept,
        } && broadcaster_id == channel.broadcaster_id && kept == channel,
        next(SubscribingView::Loaded { found: false, channel }) is Missing,
        next(SubscribingView::Saved { channel }) matches SubscribeActionView::Announce {
            broadcaster_id,
            channel: kept,
        } && broadcaster_id == channel.broadcaster_id && kept == channel,
        next(SubscribingView::Announced { channel }) matches SubscribeActionView::Say { reply } && reply
            == "Subscribed to "@ + channel.broadcaster_name,
{
}

/// What is said of the command to subscribe, and of what to do for it, is what it holds.
pub proof fn law_subscribing_says_what_it_holds(progress: Subscribing, action: SubscribeAction)
    ensures
        match progress {
            Subscribing::Found { streamer, author, lookup } => progress@ matches SubscribingView::Found {
                streamer: s,
                author: a,
                lookup: l,
            } && s == streamer@ && a == author && (lookup is None <==> l is None) && (lookup is Some ==> l
                == Some(lookup.unwrap()@)),
            Subscribing::Stored { author, channel } => progress@ matches SubscribingView::Stored {
                author: a,
                channel: c,
            } && a == author && c == channel@,
            Subscribing::Loaded { found, channel } => progress@ matches SubscribingView::Loaded {
                found: f,
                channel: c,
            } && f == found && c == channel@,
            Subscribing::Saved { channel } => progress@ matches SubscribingView::Saved { channel: c } && c
                == channel@,
            Subscribing::Announced { channel } => progress@ matches SubscribingView::Announced { channel: c }
                && c == channel@,
        },
        match action {
            SubscribeAction::Store { document, channel } => action@ matches SubscribeActionView::Store {
                document: d,
                channel: c,
            } && d == document@ && c == channel@,
            SubscribeAction::Load { key, channel } => action@ matches SubscribeActionView::Load {
                key: k,
                channel: c,
            } && k == key && c == channel@,
            SubscribeAction::Save { broadcaster_id, channel } => action@ matches SubscribeActionView::Save {
                broadcaster_id: b,
                channel: c,
            } && b == broadcaster_id@ && c == channel@,
            SubscribeAction::Announce { broadcaster_id, channel } => action@ matches
                SubscribeActionView::Announce { broadcaster_id: b, channel: c } && b == broadcaster_id@ && c
                == channel@,
            SubscribeAction::Say { reply } => action@ matches SubscribeActionView::Say { reply: r } && r == reply@,
            SubscribeAction::Missing => action@ is Missing,
        },
{
}

} // verus!
