//! The decisions around the database: its keys, the identifiers of stream
//! entries, what a chat's record says, and when a failed request is retried.

use chrono::DateTime;
use vstd::prelude::*;
use vstd::string::*;

use crate::text::{decimal_string, from_utf8, parse_number, same_text, signed_decimal_string, split_once};
use crate::types::Filter;

verus! {

pub const REGISTERED_CHATS_KEY: &'static str = "allrisbot:registered_chats";

pub const KNOWN_ITEMS_KEY: &'static str = "allrisbot:known_items";

pub const SCHEDULED_MESSAGES_KEY: &'static str = "allrisbot:scheduled_messages";

pub const LAST_UPDATE_KEY: &'static str = "allrisbot:last_update";

/// A dialogue is forgotten after so many seconds.
pub const DIALOGUE_TTL_SECS: u64 = 86400;

/// A stream is read for so many milliseconds before the read is repeated.
pub const BLOCK_MILLIS: u64 = 10000;

/// A shared connection is handed on after so many failed attempts in a row, in
/// case it is the request's fault.
pub const ATTEMPTS_PER_LOCK: u32 = 4;

/// The key of a chat's record.
pub open spec fn spec_registered_chat_key(chat_id: int) -> Seq<char> {
    "allrisbot:registered_chats:"@ + crate::text::signed_decimal(chat_id)
}

/// The key of a chat's dialogue.
pub open spec fn spec_dialogue_key(chat_id: int) -> Seq<char> {
    "allrisbot:dialogue:"@ + crate::text::signed_decimal(chat_id)
}

/// The key of a chat's record.
pub fn registered_chat_key(chat_id: i64) -> (s: String)
    ensures
        s@ == spec_registered_chat_key(chat_id as int),
{
    let mut s = "allrisbot:registered_chats:".to_owned();
    let id = signed_decimal_string(chat_id);
    s.append(id.as_str());
    s
}

/// The key of a chat's dialogue.
pub fn dialogue_key(chat_id: i64) -> (s: String)
    ensures
        s@ == spec_dialogue_key(chat_id as int),
{
    let mut s = "allrisbot:dialogue:".to_owned();
    let id = signed_decimal_string(chat_id);
    s.append(id.as_str());
    s
}

/// Texts with the same start are equal only if what follows is.
proof fn lemma_same_start(start: Seq<char>, a: Seq<char>, b: Seq<char>)
    requires
        start + a == start + b,
    ensures
        a == b,
{
    assert((start + a).skip(start.len() as int) =~= a);
    assert((start + b).skip(start.len() as int) =~= b);
}

/// No two chats share a record or a dialogue.
pub proof fn law_keys_injective(a: int, b: int)
    ensures
        spec_registered_chat_key(a) == spec_registered_chat_key(b) ==> a == b,
        spec_dialogue_key(a) == spec_dialogue_key(b) ==> a == b,
{
    if spec_registered_chat_key(a) == spec_registered_chat_key(b) {
        lemma_same_start(
            "allrisbot:registered_chats:"@,
            crate::text::signed_decimal(a),
            crate::text::signed_decimal(b),
        );
        crate::text::law_decimal_injective(a, b);
    }
    if spec_dialogue_key(a) == spec_dialogue_key(b) {
        lemma_same_start(
            "allrisbot:dialogue:"@,
            crate::text::signed_decimal(a),
            crate::text::signed_decimal(b),
        );
        crate::text::law_decimal_injective(a, b);
    }
}

/// A chat's record and another chat's dialogue never share a key.
pub proof fn law_keys_apart(a: int, b: int)
    ensures
        spec_registered_chat_key(a) != spec_dialogue_key(b),
        spec_registered_chat_key(a) != REGISTERED_CHATS_KEY@,
{
    reveal_strlit("allrisbot:registered_chats:");
    reveal_strlit("allrisbot:registered_chats");
    reveal_strlit("allrisbot:dialogue:");
    let key = spec_registered_chat_key(a);
    assert(key[10] == 'r');
    assert(spec_dialogue_key(b)[10] == 'd');
    assert(key.len() > REGISTERED_CHATS_KEY@.len());
}

/// The earliest point in time that can be stored, in milliseconds since 1970:
/// the start of the year -262143.
pub const MIN_TIMESTAMP_MILLIS: i64 = -8_334_601_228_800_000;

/// The latest point in time that can be stored, in milliseconds since 1970: the
/// end of the year 262142.
pub const MAX_TIMESTAMP_MILLIS: i64 = 8_210_266_876_799_999;

/// The point in time can be stored.
pub open spec fn timestamp_accepted(millis: int) -> bool {
    MIN_TIMESTAMP_MILLIS <= millis <= MAX_TIMESTAMP_MILLIS
}

/// [`DateTime::from_timestamp_millis`] gives a point in time for the years
/// -262143 to 262142, and its milliseconds are the number again.
#[verifier::external_body]
fn timestamp(millis: i64) -> (r: Option<i64>)
    ensures
        r == (if timestamp_accepted(millis as int) {
            Some(millis)
        } else {
            None
        }),
{
    DateTime::from_timestamp_millis(millis).map(|t| t.timestamp_millis())
}

/// A stored point in time is out of range.
#[derive(Debug, Clone, Copy, PartialEq, Eq, Structural)]
pub struct TimestampOutOfRange;

/// When the last update was, in milliseconds since 1970, given what is stored.
pub fn last_update(stored: Option<i64>) -> (r: Result<Option<i64>, TimestampOutOfRange>)
    ensures
        r == match stored {
            None => Ok(None),
            Some(millis) => if timestamp_accepted(millis as int) {
                Ok(Some(millis))
            } else {
                Err(TimestampOutOfRange)
            },
        },
{
    match stored {
        None => Ok(None),
        Some(millis) => match timestamp(millis) {
            Some(millis) => Ok(Some(millis)),
            None => Err(TimestampOutOfRange),
        },
    }
}

/// Identifies an entry of a stream.
///
/// When automatically generated, the first number is the current millisecond
/// timestamp, the second number is counting upwards per millisecond. Therefore
/// stream entries are ordered by their id.
#[derive(Debug, Clone, Copy, Hash, PartialEq, Eq, PartialOrd, Ord, Structural)]
pub struct StreamId(pub u64, pub u64);

/// Why bytes are no stream id.
#[derive(Debug, Clone, Copy, PartialEq, Eq, Structural)]
pub enum StreamIdError {
    NotUtf8,
    InvalidFormat,
}

impl StreamIdError {
    /// The error in words.
    pub fn to_text(&self) -> (s: String)
        ensures
            s@ == match *self {
                StreamIdError::NotUtf8 => "Could not convert from string."@,
                StreamIdError::InvalidFormat => "Stream ID has invalid format."@,
            },
    {
        match self {
            StreamIdError::NotUtf8 => "Could not convert from string.".to_owned(),
            StreamIdError::InvalidFormat => "Stream ID has invalid format.".to_owned(),
        }
    }
}

/// How a stream id is written.
pub open spec fn stream_id_text(id: StreamId) -> Seq<char> {
    crate::text::decimal(id.0 as nat) + "-"@ + crate::text::decimal(id.1 as nat)
}

/// The stream id that a text stands for: two numbers around the first hyphen.
pub open spec fn parsed_stream_id(s: Seq<char>) -> Option<StreamId> {
    match crate::text::split_at_char(s, '-') {
        None => None,
        Some((a, b)) => match (
            crate::text::parsed_number(a, u64::MAX as nat),
            crate::text::parsed_number(b, u64::MAX as nat),
        ) {
            (Some(x), Some(y)) => Some(StreamId(x as u64, y as u64)),
            _ => None,
        },
    }
}

impl StreamId {
    /// The id before all entries.
    pub fn zero() -> (r: StreamId)
        ensures
            r == StreamId(0, 0),
    {
        StreamId(0, 0)
    }

    /// The order of entries: by the first number, then by the second.
    pub open spec fn precedes(self, other: StreamId) -> bool {
        self.0 < other.0 || (self.0 == other.0 && self.1 < other.1)
    }

    /// Writes the id.
    pub fn to_text(&self) -> (s: String)
        ensures
            s@ == stream_id_text(*self),
    {
        let mut s = decimal_string(self.0);
        s.append("-");
        let second = decimal_string(self.1);
        s.append(second.as_str());
        s
    }

    /// Reads an id.
    pub fn parse(s: &str) -> (r: Option<StreamId>)
        ensures
            r == parsed_stream_id(s@),
    {
        match split_once(s, '-') {
            None => None,
            Some((a, b)) => match (parse_number(a), parse_number(b)) {
                (Some(x), Some(y)) => Some(StreamId(x, y)),
                _ => None,
            },
        }
    }

    /// Reads an id from the bytes that the database answers.
    pub fn from_bytes(bytes: &[u8]) -> (r: Result<StreamId, StreamIdError>)
        ensures
            match r {
                Ok(id) => vstd::utf8::valid_utf8(bytes@) && parsed_stream_id(
                    vstd::utf8::decode_utf8(bytes@),
                ) == Some(id),
                Err(StreamIdError::NotUtf8) => !vstd::utf8::valid_utf8(bytes@),
                Err(StreamIdError::InvalidFormat) => vstd::utf8::valid_utf8(bytes@)
                    && parsed_stream_id(vstd::utf8::decode_utf8(bytes@)) is None,
            },
    {
        match from_utf8(bytes) {
            None => Err(StreamIdError::NotUtf8),
            Some(s) => match Self::parse(s) {
                Some(id) => Ok(id),
                None => Err(StreamIdError::InvalidFormat),
            },
        }
    }
}

/// Writing an id and reading it back gives the id.
pub proof fn law_stream_id_round_trip(id: StreamId)
    ensures
        parsed_stream_id(stream_id_text(id)) == Some(id),
{
    let a = crate::text::decimal(id.0 as nat);
    let b = crate::text::decimal(id.1 as nat);
    let s = stream_id_text(id);
    reveal_strlit("-");
    crate::text::lemma_decimal_value(id.0 as nat);
    crate::text::lemma_decimal_value(id.1 as nat);
    assert forall|i: int| 0 <= i < a.len() implies s[i] != '-' by {
        assert(crate::text::is_digit(a[i]));
        assert(s[i] == a[i]);
    }
    assert(s[a.len() as int] == '-');
    crate::text::lemma_find_char_unique(s, '-', a.len() as int);
    assert(s.take(a.len() as int) =~= a);
    assert(s.skip(a.len() as int + 1) =~= b);
    crate::text::law_decimal_round_trip(id.0 as nat, u64::MAX as nat);
    crate::text::law_decimal_round_trip(id.1 as nat, u64::MAX as nat);
}

/// Two different ids are written differently.
pub proof fn law_stream_id_text_injective(a: StreamId, b: StreamId)
    requires
        stream_id_text(a) == stream_id_text(b),
    ensures
        a == b,
{
    law_stream_id_round_trip(a);
    law_stream_id_round_trip(b);
}

/// Stream ids are ordered strictly and totally.
pub proof fn law_stream_ids_ordered(a: StreamId, b: StreamId, c: StreamId)
    ensures
        !a.precedes(a),
        a.precedes(b) && b.precedes(c) ==> a.precedes(c),
        a == b || a.precedes(b) || b.precedes(a),
        !(a.precedes(b) && b.precedes(a)),
{
}

/// Something by which updates are ordered.
pub trait UpdateId: Copy {
    spec fn before(self, other: Self) -> bool;

    /// Whether the update comes before another one.
    fn is_before(&self, other: &Self) -> (r: bool)
        ensures
            r == self.before(*other),
    ;
}

impl UpdateId for StreamId {
    open spec fn before(self, other: StreamId) -> bool {
        self.precedes(other)
    }

    fn is_before(&self, other: &StreamId) -> bool {
        self.0 < other.0 || (self.0 == other.0 && self.1 < other.1)
    }
}

impl UpdateId for u64 {
    open spec fn before(self, other: u64) -> bool {
        self < other
    }

    fn is_before(&self, other: &u64) -> bool {
        *self < *other
    }
}

/// What the record of a chat says.
#[derive(Debug, Clone, Copy, PartialEq, Eq, Structural)]
pub enum ChatState {
    Active { last_sent: StreamId },
    Migrated { to: i64 },
    Stopped,
}

/// What the record of a chat says: it is active as long as it says what was
/// sent last.
pub fn chat_state(last_sent: Option<StreamId>, migrated: Option<i64>) -> (r: ChatState)
    ensures
        r == match (last_sent, migrated) {
            (Some(last_sent), _) => ChatState::Active { last_sent },
            (None, Some(to)) => ChatState::Migrated { to },
            (None, None) => ChatState::Stopped,
        },
{
    if let Some(last_sent) = last_sent {
        ChatState::Active { last_sent }
    } else if let Some(to) = migrated {
        ChatState::Migrated { to }
    } else {
        ChatState::Stopped
    }
}

/// The id of the latest entry, where the newest entries are given first.
pub fn current_message_id(newest_first: &Vec<StreamId>) -> (r: StreamId)
    ensures
        r == (if newest_first@.len() > 0 {
            newest_first@[0]
        } else {
            StreamId(0, 0)
        }),
{
    if newest_first.len() > 0 {
        newest_first[0]
    } else {
        StreamId::zero()
    }
}

/// The first entry of the first stream that a read answers.
pub fn first_entry<T>(response: Vec<Vec<T>>) -> (r: Option<T>)
    ensures
        r == (if response@.len() > 0 && response@[0]@.len() > 0 {
            Some(response@[0]@[0])
        } else {
            None
        }),
{
    let mut response = response;
    if response.len() == 0 {
        return None;
    }
    let mut stream = response.swap_remove(0);
    if stream.len() == 0 {
        return None;
    }
    Some(stream.swap_remove(0))
}

/// A stream entry of which the names that are texts are given.
pub open spec fn is_message_field<V>(field: (Option<String>, V)) -> bool {
    match field.0 {
        Some(name) => name@ == "message"@,
        None => false,
    }
}

/// The value of the first field that is named `message`.
pub fn message_field<V>(fields: Vec<(Option<String>, V)>) -> (r: Option<V>)
    ensures
        match r {
            Some(v) => exists|i: int|
                #![trigger fields@[i]]
                0 <= i < fields@.len() && is_message_field(fields@[i]) && v == fields@[i].1 && forall|
                    j: int,
                |
                    0 <= j < i ==> !is_message_field(#[trigger] fields@[j]),
            None => forall|j: int| 0 <= j < fields@.len() ==> !is_message_field(#[trigger] fields@[j]),
        },
        fields@.len() > 0 && is_message_field(fields@[0]) ==> r == Some(fields@[0].1),
{
    let mut rest = fields;
    let mut i: usize = 0;
    while i < rest.len()
        invariant
            rest@ == fields@,
            i <= fields@.len(),
            forall|j: int| 0 <= j < i ==> !is_message_field(#[trigger] fields@[j]),
        decreases fields@.len() - i,
    {
        let hit = match &rest[i].0 {
            Some(name) => same_text(name.as_str(), "message"),
            None => false,
        };
        if hit {
            assert(is_message_field(fields@[i as int]));
            let field = rest.swap_remove(i);
            return Some(field.1);
        }
        i = i + 1;
    }
    None
}

/// How the database client proposes to go on after an error.
#[derive(Debug, Clone, Copy, PartialEq, Eq, Structural)]
pub enum RetryMethod {
    RetryImmediately,
    WaitAndRetry,
    Reconnect,
    /// There is no use in another attempt on this connection.
    GiveUp,
}

/// What is done about a failed request.
#[derive(Debug, Clone, Copy, PartialEq, Eq, Structural)]
pub enum ErrorAction {
    RetryNow,
    /// Retry after about `delay_ms`, on a new connection if `reconnect`.
    Wait { delay_ms: u64, reconnect: bool },
    Fail,
}

/// The time to wait before the `n`th retry in a row, which grows fivefold up to
/// fifteen seconds.
pub open spec fn retry_delay_ms(n: nat) -> nat {
    let ms = (10 * vstd::arithmetic::power::pow(5, n)) as nat;
    if n < 5 && ms < 15000 {
        ms
    } else {
        15000
    }
}

/// What is done about the `n`th failure in a row. Only the first one is retried
/// at once. A connection that keeps failing is renewed at every third failure.
pub open spec fn error_action(n: nat, method: RetryMethod) -> ErrorAction {
    match method {
        RetryMethod::RetryImmediately if n == 1 => ErrorAction::RetryNow,
        RetryMethod::GiveUp => ErrorAction::Fail,
        _ => ErrorAction::Wait {
            delay_ms: retry_delay_ms(n) as u64,
            reconnect: method == RetryMethod::Reconnect || n % 3 == 0,
        },
    }
}

/// Counts the failures in a row on a connection.
#[derive(Debug, Clone, Copy, PartialEq, Eq, Structural)]
pub struct RetryCounter {
    pub failures: u32,
}

impl RetryCounter {
    /// Nothing has failed yet.
    pub fn new() -> (r: Self)
        ensures
            r.failures == 0,
    {
        RetryCounter { failures: 0 }
    }

    /// A request succeeded.
    pub fn on_success(&mut self)
        ensures
            final(self).failures == 0,
    {
        self.failures = 0;
    }

    /// A request failed.
    pub fn on_error(&mut self, method: RetryMethod) -> (r: ErrorAction)
        requires
            old(self).failures < u32::MAX,
        ensures
            final(self).failures == old(self).failures + 1,
            r == error_action(final(self).failures as nat, method),
    {
        self.failures = self.failures + 1;
        let reconnect = match method {
            RetryMethod::RetryImmediately => {
                if self.failures == 1 {
                    return ErrorAction::RetryNow;
                }
                self.failures % 3 == 0
            },
            RetryMethod::WaitAndRetry => self.failures % 3 == 0,
            RetryMethod::Reconnect => true,
            RetryMethod::GiveUp => return ErrorAction::Fail,
        };
        let delay_ms: u64 = if self.failures >= 5 {
            15000
        } else if self.failures == 1 {
            50
        } else if self.failures == 2 {
            250
        } else if self.failures == 3 {
            1250
        } else {
            6250
        };
        proof {
            reveal_with_fuel(vstd::arithmetic::power::pow, 6);
        }
        ErrorAction::Wait { delay_ms, reconnect }
    }
}

/// Whether a retry at `retry_at` would come too late.
pub fn misses_deadline(deadline: Option<u64>, retry_at: u64) -> (r: bool)
    ensures
        r == (deadline is Some && deadline->0 < retry_at),
{
    match deadline {
        Some(t) => t < retry_at,
        None => false,
    }
}

/// The time to wait never exceeds fifteen seconds, and never shrinks.
pub proof fn law_retry_delay_bounded(n: nat)
    requires
        n >= 1,
    ensures
        50 <= retry_delay_ms(n) <= 15000,
        retry_delay_ms(n) <= retry_delay_ms(n + 1),
{
    reveal_with_fuel(vstd::arithmetic::power::pow, 6);
    if n < 5 {
        assert(n == 1 || n == 2 || n == 3 || n == 4);
    }
}

/// What has to be written after the filters of a chat were changed.
#[derive(Debug, PartialEq, Eq)]
pub enum FilterWrite {
    /// There was no record, and there is none to make.
    Nothing,
    /// The last filter is gone: the chat is not subscribed any more.
    RemoveChat,
    /// The chat is subscribed with these filters.
    Store(Vec<Filter>),
}

/// Decides what has to be written after the filters of a chat were changed.
pub fn plan_filter_write(had_record: bool, filters: Vec<Filter>) -> (r: FilterWrite)
    ensures
        match r {
            FilterWrite::Nothing => filters@.len() == 0 && !had_record,
            FilterWrite::RemoveChat => filters@.len() == 0 && had_record,
            FilterWrite::Store(stored) => filters@.len() > 0 && stored == filters,
        },
{
    if filters.len() == 0 {
        if had_record {
            FilterWrite::RemoveChat
        } else {
            FilterWrite::Nothing
        }
    } else {
        FilterWrite::Store(filters)
    }
}

/// The filters to start from: none if there is no record or it cannot be read.
pub fn current_filters(record: Option<Option<Vec<Filter>>>) -> (r: Vec<Filter>)
    ensures
        match record {
            Some(Some(filters)) => r == filters,
            _ => r@.len() == 0,
        },
{
    match record {
        Some(Some(filters)) => filters,
        _ => Vec::new(),
    }
}

/// Each chat has its own record and its own dialogue: the keys of two chats
/// differ, and so do those of record and dialogue.
pub proof fn law_chats_have_their_own_keys(
    a: i64,
    b: i64,
    record: String,
    other: String,
    dialogue: String,
    other_dialogue: String,
    number: String,
)
    requires
        call_ensures(registered_chat_key, (a,), record),
        call_ensures(registered_chat_key, (b,), other),
        call_ensures(dialogue_key, (a,), dialogue),
        call_ensures(dialogue_key, (b,), other_dialogue),
        call_ensures(signed_decimal_string, (a,), number),
    ensures
        record@ == "allrisbot:registered_chats:"@ + number@,
        dialogue@ == "allrisbot:dialogue:"@ + number@,
        record@ == other@ <==> a == b,
        dialogue@ == other_dialogue@ <==> a == b,
        record@ != other_dialogue@,
{
    law_keys_injective(a as int, b as int);
    law_keys_apart(a as int, b as int);
}

/// An id that is written can be read again, from the text and from its bytes.
pub proof fn law_written_id_is_read(
    id: &StreamId,
    s: String,
    text: &str,
    r: Option<StreamId>,
    bytes: &[u8],
    read: Result<StreamId, StreamIdError>,
)
    requires
        call_ensures(StreamId::to_text, (id,), s),
        text@ == s@,
        call_ensures(StreamId::parse, (text,), r),
        vstd::utf8::valid_utf8(bytes@),
        vstd::utf8::decode_utf8(bytes@) == s@,
        call_ensures(StreamId::from_bytes, (bytes,), read),
    ensures
        r == Some(*id),
        read is Ok && read->Ok_0 == *id,
{
    law_stream_id_round_trip(*id);
}

/// An id is made of the two numbers around the first hyphen. What has none, or
/// other things around it, is no id.
pub proof fn law_ids_are_two_numbers(
    text: &str,
    r: Option<StreamId>,
    parts: Option<(&str, &str)>,
    first: Option<u64>,
    second: Option<u64>,
    bytes: &[u8],
    read: Result<StreamId, StreamIdError>,
)
    requires
        call_ensures(StreamId::parse, (text,), r),
        call_ensures(split_once, (text, '-'), parts),
        parts matches Some((a, _)) ==> call_ensures(parse_number, (a,), first),
        parts matches Some((_, b)) ==> call_ensures(parse_number, (b,), second),
        call_ensures(StreamId::from_bytes, (bytes,), read),
        vstd::utf8::valid_utf8(bytes@) ==> vstd::utf8::decode_utf8(bytes@) == text@,
    ensures
        r is Some <==> parts is Some && first is Some && second is Some,
        r matches Some(id) ==> Some(id.0) == first && Some(id.1) == second,
        !vstd::utf8::valid_utf8(bytes@) <==> read == Err::<StreamId, StreamIdError>(
            StreamIdError::NotUtf8,
        ),
        vstd::utf8::valid_utf8(bytes@) && r is None <==> read == Err::<StreamId, StreamIdError>(
            StreamIdError::InvalidFormat,
        ),
        read is Ok ==> Some(read->Ok_0) == r,
{
}

/// Entries are ordered by the first number of their ids, and then by the second.
/// None comes before the first id.
pub proof fn law_ids_are_ordered(
    a: &StreamId,
    b: &StreamId,
    r: bool,
    zero: StreamId,
    first: bool,
    m: &u64,
    n: &u64,
    smaller: bool,
)
    requires
        call_ensures(StreamId::is_before, (a, b), r),
        call_ensures(StreamId::zero, (), zero),
        call_ensures(StreamId::is_before, (a, &zero), first),
        call_ensures(u64::is_before, (m, n), smaller),
    ensures
        a.0 < b.0 ==> r,
        a.0 > b.0 ==> !r,
        a.0 == b.0 ==> (r <==> a.1 < b.1),
        !first,
        smaller <==> *m < *n,
{
}

/// A chat of which it is known what was sent last is active. Else it has moved
/// or is stopped.
pub proof fn law_record_tells_the_state(
    last_sent: Option<StreamId>,
    migrated: Option<i64>,
    r: ChatState,
)
    requires
        call_ensures(chat_state, (last_sent, migrated), r),
    ensures
        last_sent matches Some(id) ==> r == (ChatState::Active { last_sent: id }),
        last_sent is None ==> (migrated matches Some(to) ==> r == (ChatState::Migrated { to })),
        last_sent is None && migrated is None ==> r is Stopped,
{
}

/// The latest entry is the first of those that are given newest first.
pub proof fn law_latest_entry(
    ids: Vec<StreamId>,
    r: StreamId,
    zero: StreamId,
    response: Vec<Vec<u64>>,
    entry: Option<u64>,
)
    requires
        call_ensures(current_message_id, (&ids,), r),
        call_ensures(StreamId::zero, (), zero),
        call_ensures(first_entry::<u64>, (response,), entry),
    ensures
        ids@.len() > 0 ==> r == ids@[0],
        ids@.len() == 0 ==> r == zero,
        zero == StreamId(0, 0),
        response@.len() > 0 && response@[0]@.len() > 0 ==> entry == Some(response@[0]@[0]),
        response@.len() == 0 || response@[0]@.len() == 0 ==> entry is None,
{
}

/// The message is the value of the first field with its name.
pub proof fn law_message_field_is_found<V>(fields: Vec<(Option<String>, V)>, r: Option<V>, i: int)
    requires
        call_ensures(message_field::<V>, (fields,), r),
        0 <= i <= fields@.len(),
        forall|j: int|
            0 <= j < i ==> !((#[trigger] fields@[j]).0 is Some && fields@[j].0->0@ == "message"@),
        i < fields@.len() ==> fields@[i].0 is Some && fields@[i].0->0@ == "message"@,
    ensures
        i == fields@.len() ==> r is None,
        i < fields@.len() ==> r == Some(fields@[i].1),
{
    assert forall|j: int| 0 <= j < i implies !is_message_field(#[trigger] fields@[j]) by {}
    if i < fields@.len() {
        assert(is_message_field(fields@[i]));
    }
    if let Some(v) = r {
        let k = choose|k: int|
            #![trigger fields@[k]]
            0 <= k < fields@.len() && is_message_field(fields@[k]) && v == fields@[k].1 && forall|
                j: int,
            |
                0 <= j < k ==> !is_message_field(#[trigger] fields@[j]);
        assert(is_message_field(fields@[k]));
        assert(v == fields@[k].1);
        if k > i {
            assert(!is_message_field(fields@[i]));
        }
    }
}

/// Only the first failure is retried at once, and only if that is proposed. Any
/// other is retried after a time that grows fivefold from fifty milliseconds on,
/// up to fifteen seconds, on a new connection at every third failure. Where
/// there is no use in it, the request fails.
pub proof fn law_failures_are_retried(c: &mut RetryCounter, method: RetryMethod, r: ErrorAction)
    requires
        c.failures < u32::MAX,
        call_ensures(RetryCounter::on_error, (c, method), r),
    ensures
        ({
            let n = final(c).failures as int;
            &&& n == old(c).failures + 1
            &&& r is Fail <==> method is GiveUp
            &&& r is RetryNow <==> method is RetryImmediately && n == 1
            &&& r matches ErrorAction::Wait { delay_ms, reconnect } ==> {
                &&& reconnect <==> method is Reconnect || n % 3 == 0
                &&& n == 1 ==> delay_ms == 50
                &&& n == 2 ==> delay_ms == 5 * 50
                &&& n == 3 ==> delay_ms == 5 * 5 * 50
                &&& n == 4 ==> delay_ms == 5 * 5 * 5 * 50
                &&& n >= 5 ==> delay_ms == 15_000
            }
        }),
{
    reveal_with_fuel(vstd::arithmetic::power::pow, 6);
}

/// The count of failures starts at none, and starts again after a success.
pub proof fn law_success_resets_the_count(new: RetryCounter, c: &mut RetryCounter)
    requires
        call_ensures(RetryCounter::new, (), new),
        call_ensures(RetryCounter::on_success, (c,), ()),
    ensures
        new.failures == 0,
        final(c).failures == 0,
{
}

/// A retry comes too late exactly if it comes after the deadline. Without one it
/// never does.
pub proof fn law_deadline_is_kept(deadline: Option<u64>, retry_at: u64, r: bool)
    requires
        call_ensures(misses_deadline, (deadline, retry_at), r),
    ensures
        deadline is None ==> !r,
        deadline matches Some(t) ==> (r <==> retry_at > t),
{
}

/// A chat is subscribed as long as it has a filter: its filters are stored, as
/// they are, if there are any, and the chat is removed if there are none any
/// more.
pub proof fn law_last_filter_ends_subscription(
    had_record: bool,
    filters: Vec<Filter>,
    r: FilterWrite,
    record: Option<Option<Vec<Filter>>>,
    current: Vec<Filter>,
)
    requires
        call_ensures(plan_filter_write, (had_record, filters), r),
        call_ensures(current_filters, (record,), current),
    ensures
        filters@.len() > 0 ==> (r matches FilterWrite::Store(stored) && stored@ == filters@),
        filters@.len() == 0 ==> (r is RemoveChat <==> had_record) && (r is Nothing <==> !had_record),
        record matches Some(Some(known)) ==> current@ == known@,
        !(record matches Some(Some(_))) ==> current@.len() == 0,
{
}

/// The time of the last update is what is stored. There is none if nothing is,
/// and an error only if it is out of range.
pub proof fn law_last_update_is_read(
    millis: i64,
    none: Result<Option<i64>, TimestampOutOfRange>,
    r: Result<Option<i64>, TimestampOutOfRange>,
)
    requires
        call_ensures(last_update, (None,), none),
        call_ensures(last_update, (Some(millis),), r),
    ensures
        none is Ok && none->Ok_0 is None,
        r is Ok <==> -8_334_601_228_800_000 <= millis <= 8_210_266_876_799_999,
        r is Ok ==> r->Ok_0 == Some(millis),
{
}

} // verus!
