//! Telling users that a stream went live.
use twitch_api::types::TimestampRef;
use vstd::prelude::*;

use crate::eventsub::{StreamOnline, StreamOnlineView};
use crate::text::{
    integer, integer_text, law_integer_text_reads_back, law_integers_are_told_apart, number, same,
};
use crate::users::{maps, mapping_views, values, Mapping, MappingView, Subscriptions, UserDataView};

verus! {

/// The number that the two digits at `i` write.
pub open spec fn two_digits(text: Seq<char>, i: int) -> int {
    (text[i] as int - '0' as int) * 10 + (text[i + 1] as int - '0' as int)
}

/// The minutes that the `hh:mm` at `i` writes.
pub open spec fn minutes(text: Seq<char>, i: int) -> int {
    two_digits(text, i) * 60 + two_digits(text, i + 3)
}

/// Whether an RFC 3339 timestamp is, in UTC, later than the last day of the year 9999.
pub open spec fn is_after_last_day(timestamp: Seq<char>) -> bool {
    &&& timestamp.len() >= 25
    &&& timestamp.take(10) == "9999-12-31"@
    &&& timestamp[timestamp.len() - 6] == '-'
    &&& minutes(timestamp, 11) + minutes(timestamp, timestamp.len() - 5) >= 24 * 60
}

/// The Unix time of an RFC 3339 timestamp, in seconds; nothing where the text is no timestamp.
pub uninterp spec fn unix_timestamp(timestamp: Seq<char>) -> Option<i64>;

/// Calls `twitch_types::TimestampRef::from_str` and `to_utc`, and `time`'s `unix_timestamp`, of which
/// `to_utc` panics after the last day of the year 9999. Trusted: the time depends on `timestamp`
/// alone.
#[verifier::external_body]
fn to_unix_timestamp(timestamp: &str) -> (seconds: Option<i64>)
    requires
        !is_after_last_day(timestamp@),
    ensures
        seconds == unix_timestamp(timestamp@),
{
    match TimestampRef::from_str(timestamp) {
        Ok(timestamp) => Some(timestamp.to_utc().unix_timestamp()),
        Err(_) => None,
    }
}

/// The Unix time at which a stream started, in seconds, if there is one.
pub open spec fn start(started_at: Seq<char>) -> Option<i64> {
    if is_after_last_day(started_at) {
        None
    } else {
        unix_timestamp(started_at)
    }
}

/// The number that the two digits at `i` write.
fn read_two_digits(text: &str, i: usize) -> (number: i64)
    requires
        i + 1 < text@.len(),
        i < usize::MAX,
    ensures
        number == two_digits(text@, i as int),
        -1000 <= number <= 20_000_000,
{
    let tens: char = text.get_char(i);
    let ones: char = text.get_char(i + 1);
    (tens as u32 as i64 - 48) * 10 + (ones as u32 as i64 - 48)
}

/// Whether a timestamp is, in UTC, later than the last day of the year 9999.
fn after_last_day(timestamp: &str) -> (after: bool)
    ensures
        after == is_after_last_day(timestamp@),
{
    let length: usize = timestamp.unicode_len();
    if length < 25 {
        return false;
    }
    if !same(timestamp.substring_char(0, 10), "9999-12-31") {
        return false;
    }
    if timestamp.get_char(length - 6) != '-' {
        return false;
    }
    let clock: i64 = read_two_digits(timestamp, 11) * 60 + read_two_digits(timestamp, 14);
    let offset: i64 = read_two_digits(timestamp, length - 5) * 60 + read_two_digits(timestamp, length - 2);
    clock + offset >= 24 * 60
}

/// The Unix time at which a stream started, in seconds, if there is one.
pub fn start_time(started_at: &str) -> (seconds: Option<i64>)
    ensures
        seconds == start(started_at@),
{
    if after_last_day(started_at) {
        None
    } else {
        to_unix_timestamp(started_at)
    }
}

/// What users are told of a stream that started at the Unix time `seconds`.
pub open spec fn message(stream: StreamOnlineView, seconds: i64) -> Seq<char> {
    "["@ + stream.broadcaster_user_name + "](https://twitch.tv/"@ + stream.broadcaster_user_login
        + ") went online <t:"@ + integer_text(seconds as int) + ":R>."@
}

/// What users are told of a stream that started at the Unix time `seconds`.
pub fn online_message(stream: &StreamOnline, seconds: i64) -> (text: String)
    ensures
        text@ == message(stream@, seconds),
{
    "[".to_string().concat(stream.broadcaster_user_name.as_str()).concat("](https://twitch.tv/").concat(
        stream.broadcaster_user_login.as_str(),
    ).concat(") went online <t:").concat(integer(seconds).as_str()).concat(":R>.")
}

/// The streamer whose subscribers are to be told of a stream: of one that is live, and of no other.
pub fn streamer_to_announce(stream: &StreamOnline) -> (broadcaster_id: Option<String>)
    ensures
        match broadcaster_id {
            Some(id) => stream@.type_ == "Live"@ && id@ == stream@.broadcaster_user_id,
            None => stream@.type_ != "Live"@,
        },
{
    if same(stream.type_.as_str(), "Live") {
        Some(stream.broadcaster_user_id.clone())
    } else {
        None
    }
}

/// A message to a user.
pub struct DirectMessage {
    /// The user's Discord id.
    pub recipient: u64,
    /// What the user is told.
    pub text: String,
}

/// What a [`DirectMessage`] says.
pub struct DirectMessageView {
    pub recipient: u64,
    pub text: Seq<char>,
}

impl View for DirectMessage {
    type V = DirectMessageView;

    open spec fn view(&self) -> DirectMessageView {
        DirectMessageView { recipient: self.recipient, text: self.text@ }
    }
}

/// What messages say.
pub open spec fn direct_message_views(messages: Seq<DirectMessage>) -> Seq<DirectMessageView> {
    messages.map_values(|message: DirectMessage| message@)
}

/// `text` to each of `recipients`.
pub open spec fn to_all(recipients: Seq<u64>, text: Seq<char>) -> Seq<DirectMessageView> {
    recipients.map_values(|recipient: u64| DirectMessageView { recipient, text })
}

/// Whom messages are for.
pub open spec fn recipients(messages: Seq<DirectMessageView>) -> Seq<u64> {
    messages.map_values(|message: DirectMessageView| message.recipient)
}

/// The messages that tell `recipients` of a stream, where `seconds` is the Unix time at which it
/// started, if there is one; nothing where there is none and someone is to be told.
pub open spec fn announcement(
    stream: StreamOnlineView,
    recipients: Seq<u64>,
    seconds: Option<i64>,
) -> Option<Seq<DirectMessageView>> {
    if recipients.len() == 0 {
        Some(Seq::empty())
    } else {
        match seconds {
            Some(seconds) => Some(to_all(recipients, message(stream, seconds))),
            None => None,
        }
    }
}

/// `text` to each of `recipients`.
fn address(recipients: &Vec<u64>, text: &String) -> (messages: Vec<DirectMessage>)
    ensures
        direct_message_views(messages@) == to_all(recipients@, text@),
{
    let mut messages: Vec<DirectMessage> = Vec::new();
    let mut i: usize = 0;
    while i < recipients.len()
        invariant
            i <= recipients.len(),
            direct_message_views(messages@) =~= to_all(recipients@, text@).take(i as int),
        decreases recipients.len() - i,
    {
        let ghost before = direct_message_views(messages@);
        messages.push(DirectMessage { recipient: recipients[i], text: text.clone() });
        assert(direct_message_views(messages@) =~= before.push(messages@.last()@));
        i = i + 1;
    }
    messages
}

/// The messages that tell the users of `mappings` of a stream, where `seconds` is the Unix time at
/// which it started, if there is one.
pub fn announce_at(stream: &StreamOnline, mappings: &Vec<Mapping>, seconds: Option<i64>) -> (messages:
    Option<Vec<DirectMessage>>)
    ensures
        match messages {
            Some(messages) => announcement(stream@, values(mapping_views(mappings@)), seconds) == Some(
                direct_message_views(messages@),
            ),
            None => announcement(stream@, values(mapping_views(mappings@)), seconds) is None,
        },
{
    let recipients = Subscriptions.reduce(mappings);
    if recipients.len() == 0 {
        let messages: Vec<DirectMessage> = Vec::new();
        assert(direct_message_views(messages@) =~= Seq::empty());
        return Some(messages);
    }
    match seconds {
        Some(seconds) => Some(address(&recipients, &online_message(stream, seconds))),
        None => None,
    }
}

/// The messages that tell the users of `mappings` of a stream; nothing where its timestamp gives no
/// time, and someone is to be told.
pub fn announce(stream: &StreamOnline, mappings: &Vec<Mapping>) -> (messages: Option<Vec<DirectMessage>>)
    ensures
        match messages {
            Some(messages) => announcement(
                stream@,
                values(mapping_views(mappings@)),
                start(stream@.started_at),
            ) == Some(direct_message_views(messages@)),
            None => announcement(stream@, values(mapping_views(mappings@)), start(stream@.started_at)) is None,
        },
{
    announce_at(stream, mappings, start_time(stream.started_at.as_str()))
}

/// The values of entries with one user each.
proof fn lemma_values_of_singletons(mappings: Seq<MappingView>)
    requires
        forall|i: int| 0 <= i < mappings.len() ==> (#[trigger] mappings[i]).value.len() == 1,
    ensures
        values(mappings) == mappings.map_values(|mapping: MappingView| mapping.value[0]),
    decreases mappings.len(),
{
    let lists = mappings.map_values(|mapping: MappingView| mapping.value);
    if mappings.len() == 0 {
        assert(lists =~= Seq::<Seq<u64>>::empty());
        assert(values(mappings) =~= mappings.map_values(|mapping: MappingView| mapping.value[0]));
    } else {
        let first = mappings.drop_last();
        lemma_values_of_singletons(first);
        let first_lists = first.map_values(|mapping: MappingView| mapping.value);
        assert(lists =~= first_lists.push(mappings.last().value));
        first_lists.lemma_flatten_push(mappings.last().value);
        assert(values(mappings) =~= mappings.map_values(|mapping: MappingView| mapping.value[0]));
    }
}

/// Of a live stream that started at the Unix time `seconds`, those users are told who subscribed to
/// the streamer, and nobody else, and each once and the same: where `entries` are the entries of each user, and `found` lists those of the streamer, each
/// once and in any order.
pub proof fn law_subscribers_are_told_once(
    users: Seq<UserDataView>,
    entries: Seq<Seq<MappingView>>,
    stream: StreamOnlineView,
    found: Seq<MappingView>,
    seconds: i64,
)
    requires
        entries.len() == users.len(),
        forall|i: int| 0 <= i < users.len() ==> maps(#[trigger] users[i], entries[i]),
        found.no_duplicates(),
        forall|entry: MappingView| #[trigger]
            found.contains(entry) <==> entry.key == stream.broadcaster_user_id && exists|i: int|
                0 <= i < users.len() && (#[trigger] entries[i]).contains(entry),
    ensures
        announcement(stream, values(found), Some(seconds)) matches Some(messages) && {
            &&& recipients(messages).no_duplicates()
            &&& forall|user: u64| #[trigger]
                recipients(messages).contains(user) <==> exists|i: int|
                    0 <= i < users.len() && (#[trigger] users[i]).key == user && users[i].subscriptions.contains(
                        stream.broadcaster_user_id,
                    )
            &&& forall|i: int|
                0 <= i < messages.len() ==> (#[trigger] messages[i]).text == message(stream, seconds)
        },
{
    let streamer = stream.broadcaster_user_id;
    let messages = announcement(stream, values(found), Some(seconds)).unwrap();
    assert(recipients(messages) =~= values(found));
    assert forall|j: int| 0 <= j < found.len() implies (#[trigger] found[j]).key == streamer && exists|i: int|
        0 <= i < users.len() && (#[trigger] users[i]).subscriptions.contains(streamer) && found[j].value
            == seq![users[i].key] by {
        assert(found.contains(found[j]));
        let i = choose|i: int| 0 <= i < users.len() && (#[trigger] entries[i]).contains(found[j]);
        let k = entries[i].lemma_contains_to_index(found[j]);
        let keys = entries[i].map_values(|mapping: MappingView| mapping.key);
        assert(maps(users[i], entries[i]));
        assert(keys[k] == streamer);
        assert(keys.to_set().contains(streamer));
        assert(users[i].subscriptions.contains(streamer));
        assert(entries[i][k].value == seq![users[i].key]);
    }
    lemma_values_of_singletons(found);
    let told = values(found);
    assert forall|a: int, b: int| 0 <= a < b < told.len() implies told[a] != told[b] by {
        if told[a] == told[b] {
            assert(found[a].value =~= found[b].value);
            assert(found[a] == found[b]);
        }
    }
    assert forall|user: u64| #[trigger] told.contains(user) <==> exists|i: int|
        0 <= i < users.len() && (#[trigger] users[i]).key == user && users[i].subscriptions.contains(streamer) by {
        if told.contains(user) {
            let j = told.lemma_contains_to_index(user);
            let i = choose|i: int|
                0 <= i < users.len() && (#[trigger] users[i]).subscriptions.contains(streamer)
                    && found[j].value == seq![users[i].key];
            assert(users[i].key == user);
        }
        if exists|i: int|
            0 <= i < users.len() && (#[trigger] users[i]).key == user && users[i].subscriptions.contains(
                streamer,
            ) {
            let i = choose|i: int|
                0 <= i < users.len() && (#[trigger] users[i]).key == user
                    && users[i].subscriptions.contains(streamer);
            let keys = entries[i].map_values(|mapping: MappingView| mapping.key);
            assert(maps(users[i], entries[i]));
            assert(keys.to_set().contains(streamer));
            let k = keys.lemma_contains_to_index(streamer);
            let entry = entries[i][k];
            assert(entry.key == streamer);
            assert(entry.value == seq![user]);
            assert(entries[i].contains(entry));
            assert(found.contains(entry));
            let j = found.lemma_contains_to_index(entry);
            assert(told[j] == user);
        }
    }
}

/// The text of a message names and links the streamer, and the start time in it reads back as just
/// that time.
pub proof fn law_messages_tell_the_start_time(stream: StreamOnlineView, seconds: i64)
    ensures
        ({
            let text = message(stream, seconds);
            let head = "["@ + stream.broadcaster_user_name + "](https://twitch.tv/"@
                + stream.broadcaster_user_login + ") went online <t:"@;
            let tail = ":R>."@;
            let time = text.subrange(head.len() as int, text.len() - tail.len());
            &&& text.len() > head.len() + tail.len()
            &&& text.take(head.len() as int) == head
            &&& text.skip(text.len() - tail.len()) == tail
            &&& seconds >= 0 ==> {
                &&& forall|i: int| 0 <= i < time.len() ==> '0' <= #[trigger] time[i] <= '9'
                &&& time.len() > 1 ==> time[0] != '0'
                &&& number(time) == seconds
            }
            &&& seconds < 0 ==> {
                let digits = time.skip(1);
                &&& time.len() > 1
                &&& time[0] == '-'
                &&& forall|i: int| 0 <= i < digits.len() ==> '0' <= #[trigger] digits[i] <= '9'
                &&& digits[0] != '0'
                &&& number(digits) == -seconds
            }
        }),
{
    let text = message(stream, seconds);
    let head = "["@ + stream.broadcaster_user_name + "](https://twitch.tv/"@ + stream.broadcaster_user_login
        + ") went online <t:"@;
    let tail = ":R>."@;
    let time = integer_text(seconds as int);
    law_integer_text_reads_back(seconds as int);
    assert(text =~= head + time + tail);
    assert(text.take(head.len() as int) =~= head);
    assert(text.skip(text.len() - tail.len()) =~= tail);
    assert(text.subrange(head.len() as int, text.len() - tail.len()) =~= time);
}

/// Messages of different start times differ.
pub proof fn law_start_times_are_told_apart(stream: StreamOnlineView, first: i64, second: i64)
    requires
        message(stream, first) == message(stream, second),
    ensures
        first == second,
{
    let head = "["@ + stream.broadcaster_user_name + "](https://twitch.tv/"@ + stream.broadcaster_user_login
        + ") went online <t:"@;
    let tail = ":R>."@;
    let text = message(stream, first);
    let middle = text.subrange(head.len() as int, text.len() - tail.len());
    assert(middle =~= integer_text(first as int));
    assert(middle =~= integer_text(second as int));
    law_integers_are_told_apart(first as int, second as int);
}

/// Each recipient is told, in order, and all are told the same; where there is no time to tell, and
/// someone to be told, there are no messages at all.
pub proof fn law_each_recipient_is_told(stream: StreamOnlineView, told: Seq<u64>, seconds: Option<i64>)
    ensures
        announcement(stream, told, seconds) is None <==> told.len() > 0 && seconds is None,
        announcement(stream, told, seconds) matches Some(messages) ==> {
            &&& messages.len() == told.len()
            &&& forall|i: int|
                0 <= i < told.len() ==> (#[trigger] messages[i]).recipient == told[i] && messages[i].text
                    == message(stream, seconds.unwrap())
        },
{
}

/// What is said of messages is what they hold.
pub proof fn law_messages_say_what_they_hold(single: DirectMessage, messages: Seq<DirectMessage>)
    ensures
        single@.recipient == single.recipient,
        single@.text == single.text@,
        direct_message_views(messages).len() == messages.len(),
        forall|i: int| 0 <= i < messages.len() ==> #[trigger] direct_message_views(messages)[i] == messages[i]@,
{
}

/// A timestamp gives its Unix time, unless it is on the last day of the year 9999, west of Greenwich,
/// and so late that it is the next day in UTC.
pub proof fn law_timestamps_give_their_time(timestamp: Seq<char>)
    ensures
        ({
            let n = timestamp.len();
            let clock = ((timestamp[11] as int - 48) * 10 + (timestamp[12] as int - 48)) * 60 + (
            timestamp[14] as int - 48) * 10 + (timestamp[15] as int - 48);
            let offset = ((timestamp[n - 5] as int - 48) * 10 + (timestamp[n - 4] as int - 48)) * 60 + (
            timestamp[n - 2] as int - 48) * 10 + (timestamp[n - 1] as int - 48);
            start(timestamp) == if n >= 25 && timestamp.take(10) == "9999-12-31"@ && timestamp[n - 6] == '-'
                && clock + offset >= 1440 {
                None
            } else {
                unix_timestamp(timestamp)
            }
        }),
{
}

} // verus!
