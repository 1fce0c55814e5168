//! What Telegram's answer to a request means for the chat that it concerns.

use vstd::prelude::*;

use crate::text::is_listed;

verus! {

/// What an error response can say beside its description.
#[derive(Clone, Copy, Debug, PartialEq, Eq, Structural)]
pub struct ResponseParameters {
    pub migrate_to_chat_id: Option<i64>,
    pub retry_after: Option<u16>,
}

/// An error response of the Telegram API.
#[derive(Debug, PartialEq, Eq)]
pub struct ErrorResponse {
    pub description: String,
    pub error_code: u64,
    pub parameters: Option<ResponseParameters>,
}

/// Why a request failed: the API refused it, or it did not come to that.
#[derive(Debug, PartialEq, Eq)]
pub enum Error {
    Api(ErrorResponse),
    NoResponse,
}

/// What a failed request means.
#[derive(Clone, Copy, Debug, PartialEq, Eq, Structural)]
pub enum RequestError {
    InvalidToken,
    ChatMigrated(i64),
    BotBlocked,
    /// Another request may be made after so many seconds.
    RetryAfter(u32),
    ClientError,
    Other,
}

impl ErrorResponse {
    /// The chat that took the place of the one that was addressed.
    pub open spec fn migrated_to(self) -> Option<i64> {
        match self.parameters {
            Some(p) => p.migrate_to_chat_id,
            None => None,
        }
    }

    /// The number of seconds to wait.
    pub open spec fn retry_secs(self) -> Option<u16> {
        match self.parameters {
            Some(p) => p.retry_after,
            None => None,
        }
    }

    /// The token is not a valid one.
    pub open spec fn is_unauthorized(self) -> bool {
        self.error_code == 401 || self.error_code == 404
    }

    /// The bot may not send messages to the chat any more.
    pub open spec fn is_blocked(self) -> bool {
        crate::text::listed(spec_telegram_errors(), self.description@)
    }
}

/// Error messages that imply we're not allowed to send messages to this chat
/// in the future.
pub open spec fn spec_telegram_errors() -> Seq<&'static str> {
    seq![
        "Bad Request: CHAT_WRITE_FORBIDDEN",
        "Bad Request: TOPIC_CLOSED",
        "Bad Request: chat not found",
        "Bad Request: have no rights to send a message",
        "Bad Request: not enough rights to send text messages to the chat",
        "Bad Request: need administrator rights in the channel chat",
        "Forbidden: bot is not a member of the channel chat",
        "Forbidden: bot is not a member of the supergroup chat",
        "Forbidden: bot was blocked by the user",
        "Forbidden: bot was kicked from the channel chat",
        "Forbidden: bot was kicked from the group chat",
        "Forbidden: bot was kicked from the supergroup chat",
        "Forbidden: the group chat was deleted",
        "Forbidden: user is deactivated",
    ]
}

/// Error messages that imply we're not allowed to send messages to this chat
/// in the future.
pub fn telegram_errors() -> (r: Vec<&'static str>)
    ensures
        r@ == spec_telegram_errors(),
{
    let r = vec![
        "Bad Request: CHAT_WRITE_FORBIDDEN",
        "Bad Request: TOPIC_CLOSED",
        "Bad Request: chat not found",
        "Bad Request: have no rights to send a message",
        "Bad Request: not enough rights to send text messages to the chat",
        "Bad Request: need administrator rights in the channel chat",
        "Forbidden: bot is not a member of the channel chat",
        "Forbidden: bot is not a member of the supergroup chat",
        "Forbidden: bot was blocked by the user",
        "Forbidden: bot was kicked from the channel chat",
        "Forbidden: bot was kicked from the group chat",
        "Forbidden: bot was kicked from the supergroup chat",
        "Forbidden: the group chat was deleted",
        "Forbidden: user is deactivated",
    ];
    assert(r@ =~= spec_telegram_errors());
    r
}

/// What a failed request means. A token that is refused outweighs everything
/// else, then comes migration, then a chat that is closed to the bot, then a
/// time to wait, then the class of the error code.
pub open spec fn mapped_error(e: Error) -> RequestError {
    match e {
        Error::NoResponse => RequestError::Other,
        Error::Api(r) => if r.is_unauthorized() {
            RequestError::InvalidToken
        } else if r.migrated_to() is Some {
            RequestError::ChatMigrated(r.migrated_to()->0)
        } else if r.is_blocked() {
            RequestError::BotBlocked
        } else if r.retry_secs() is Some {
            RequestError::RetryAfter(r.retry_secs()->0 as u32)
        } else if 400 <= r.error_code <= 499 {
            RequestError::ClientError
        } else {
            RequestError::Other
        },
    }
}

/// Says what a failed request means.
pub fn map_error(e: &Error) -> (r: RequestError)
    ensures
        r == mapped_error(*e),
{
    let api_error = match e {
        Error::Api(api_error) => api_error,
        Error::NoResponse => return RequestError::Other,
    };
    if api_error.error_code == 401 || api_error.error_code == 404 {
        return RequestError::InvalidToken;
    }
    if let Some(p) = api_error.parameters {
        if let Some(new_chat_id) = p.migrate_to_chat_id {
            return RequestError::ChatMigrated(new_chat_id);
        }
    }
    let blocking = telegram_errors();
    if is_listed(blocking.as_slice(), api_error.description.as_str()) {
        return RequestError::BotBlocked;
    }
    if let Some(p) = api_error.parameters {
        if let Some(secs) = p.retry_after {
            return RequestError::RetryAfter(secs as u32);
        }
    }
    if 400 <= api_error.error_code && api_error.error_code <= 499 {
        RequestError::ClientError
    } else {
        RequestError::Other
    }
}

/// What became of an attempt to send a message.
#[derive(Clone, Copy, Debug, PartialEq, Eq, Structural)]
pub enum Verdict {
    Delivered,
    InvalidToken,
    ChatMigrated(i64),
    ChatClosed,
    /// Another attempt may be made after so many seconds.
    RetryAfter(u32),
    /// The message is refused for good.
    Refused,
    Failed,
}

/// The verdict on a response whose meaning `map_error` gives.
pub open spec fn mapped_verdict(response: Result<(), Error>) -> Verdict {
    match response {
        Ok(_) => Verdict::Delivered,
        Err(e) => match mapped_error(e) {
            RequestError::InvalidToken => Verdict::InvalidToken,
            RequestError::ChatMigrated(to) => Verdict::ChatMigrated(to),
            RequestError::BotBlocked => Verdict::ChatClosed,
            RequestError::RetryAfter(secs) => Verdict::RetryAfter(secs),
            RequestError::ClientError => Verdict::Refused,
            RequestError::Other => Verdict::Failed,
        },
    }
}

/// Gives the verdict on a response.
pub fn verdict(response: &Result<(), Error>) -> (r: Verdict)
    ensures
        r == mapped_verdict(*response),
{
    match response {
        Ok(_) => Verdict::Delivered,
        Err(e) => match map_error(e) {
            RequestError::InvalidToken => Verdict::InvalidToken,
            RequestError::ChatMigrated(to) => Verdict::ChatMigrated(to),
            RequestError::BotBlocked => Verdict::ChatClosed,
            RequestError::RetryAfter(secs) => Verdict::RetryAfter(secs),
            RequestError::ClientError => Verdict::Refused,
            RequestError::Other => Verdict::Failed,
        },
    }
}

/// The verdict of a sender that never gives a message up because of a client
/// error, and for which a time to wait outweighs a closed chat.
pub open spec fn persistent_verdict(response: Result<(), Error>) -> Verdict {
    match response {
        Ok(_) => Verdict::Delivered,
        Err(Error::NoResponse) => Verdict::Failed,
        Err(Error::Api(r)) => if r.is_unauthorized() {
            Verdict::InvalidToken
        } else if r.migrated_to() is Some {
            Verdict::ChatMigrated(r.migrated_to()->0)
        } else if r.retry_secs() is Some {
            Verdict::RetryAfter(r.retry_secs()->0 as u32)
        } else if r.is_blocked() {
            Verdict::ChatClosed
        } else {
            Verdict::Failed
        },
    }
}

/// Gives the verdict of a sender that never gives a message up because of a
/// client error.
pub fn persistent(response: &Result<(), Error>) -> (r: Verdict)
    ensures
        r == persistent_verdict(*response),
{
    let e = match response {
        Ok(_) => return Verdict::Delivered,
        Err(Error::NoResponse) => return Verdict::Failed,
        Err(Error::Api(e)) => e,
    };
    if e.error_code == 401 || e.error_code == 404 {
        return Verdict::InvalidToken;
    }
    if let Some(p) = e.parameters {
        if let Some(new_chat_id) = p.migrate_to_chat_id {
            return Verdict::ChatMigrated(new_chat_id);
        }
        if let Some(secs) = p.retry_after {
            return Verdict::RetryAfter(secs as u32);
        }
    }
    let blocking = telegram_errors();
    if is_listed(blocking.as_slice(), e.description.as_str()) {
        Verdict::ChatClosed
    } else {
        Verdict::Failed
    }
}

/// The errors of a typed API client that matter for a chat. `Unknown` carries
/// the message of an error that the client has no variant for.
#[derive(Debug, PartialEq, Eq)]
pub enum ApiError {
    BotBlocked,
    ChatNotFound,
    GroupDeactivated,
    BotKicked,
    BotKickedFromSupergroup,
    UserDeactivated,
    CantInitiateConversation,
    NotEnoughRightsToPostMessages,
    CantTalkWithBots,
    InvalidToken,
    Unknown(String),
    /// One of the errors that say nothing about the chat.
    Unrelated,
}

/// Why a request of a typed API client failed.
#[derive(Debug, PartialEq, Eq)]
pub enum ClientError {
    Api(ApiError),
    MigrateToChatId(i64),
    RetryAfter(u32),
    NoResponse,
}

/// Messages of errors without a variant that imply we're not allowed to send
/// messages to this chat in the future.
pub open spec fn spec_additional_errors() -> Seq<&'static str> {
    seq![
        "Forbidden: bot was kicked from the channel chat",
        "Forbidden: bot was kicked from the group chat",
        "Bad Request: not enough rights to send text messages to the chat",
    ]
}

/// Messages of errors without a variant that imply we're not allowed to send
/// messages to this chat in the future.
pub fn additional_errors() -> (r: Vec<&'static str>)
    ensures
        r@ == spec_additional_errors(),
{
    let r = vec![
        "Forbidden: bot was kicked from the channel chat",
        "Forbidden: bot was kicked from the group chat",
        "Bad Request: not enough rights to send text messages to the chat",
    ];
    assert(r@ =~= spec_additional_errors());
    r
}

/// The error means that the chat cannot be written to any more. Missing rights
/// to post are left aside.
pub open spec fn chat_gone(e: ApiError) -> bool {
    match e {
        ApiError::BotBlocked => true,
        ApiError::ChatNotFound => true,
        ApiError::GroupDeactivated => true,
        ApiError::BotKicked => true,
        ApiError::BotKickedFromSupergroup => true,
        ApiError::UserDeactivated => true,
        ApiError::CantInitiateConversation => true,
        ApiError::CantTalkWithBots => true,
        ApiError::Unknown(message) => crate::text::listed(spec_additional_errors(), message@),
        _ => false,
    }
}

/// Whether the error means that the chat cannot be written to any more,
/// missing rights to post left aside.
pub fn is_chat_gone(e: &ApiError) -> (r: bool)
    ensures
        r == chat_gone(*e),
{
    match e {
        ApiError::BotBlocked
        | ApiError::ChatNotFound
        | ApiError::GroupDeactivated
        | ApiError::BotKicked
        | ApiError::BotKickedFromSupergroup
        | ApiError::UserDeactivated
        | ApiError::CantInitiateConversation
        | ApiError::CantTalkWithBots => true,
        ApiError::Unknown(message) => {
            let additional = additional_errors();
            is_listed(additional.as_slice(), message.as_str())
        },
        _ => false,
    }
}

/// Whether the error means that the chat cannot be written to any more.
pub fn is_chat_invalid(e: &ApiError) -> (r: bool)
    ensures
        r == (chat_gone(*e) || e is NotEnoughRightsToPostMessages),
{
    match e {
        ApiError::NotEnoughRightsToPostMessages => true,
        _ => is_chat_gone(e),
    }
}

/// The verdict on a response of a typed API client.
pub open spec fn client_verdict(response: Result<(), ClientError>) -> Verdict {
    match response {
        Ok(_) => Verdict::Delivered,
        Err(ClientError::Api(e)) => if chat_gone(e) || e is NotEnoughRightsToPostMessages {
            Verdict::ChatClosed
        } else if e is InvalidToken {
            Verdict::InvalidToken
        } else {
            Verdict::Failed
        },
        Err(ClientError::MigrateToChatId(to)) => Verdict::ChatMigrated(to),
        Err(ClientError::RetryAfter(secs)) => Verdict::RetryAfter(secs),
        Err(ClientError::NoResponse) => Verdict::Failed,
    }
}

/// Gives the verdict on a response of a typed API client.
pub fn of_client(response: &Result<(), ClientError>) -> (r: Verdict)
    ensures
        r == client_verdict(*response),
{
    match response {
        Ok(_) => Verdict::Delivered,
        Err(ClientError::Api(e)) => {
            if is_chat_invalid(e) {
                Verdict::ChatClosed
            } else {
                match e {
                    ApiError::InvalidToken => Verdict::InvalidToken,
                    _ => Verdict::Failed,
                }
            }
        },
        Err(ClientError::MigrateToChatId(to)) => Verdict::ChatMigrated(*to),
        Err(ClientError::RetryAfter(secs)) => Verdict::RetryAfter(*secs),
        Err(ClientError::NoResponse) => Verdict::Failed,
    }
}

/// Where neither the token nor a migration nor a time to wait is concerned, a
/// chat counts as closed exactly if the description says so.
pub proof fn law_verdicts_agree_on_closed_chats(r: ErrorResponse)
    requires
        !r.is_unauthorized(),
        r.migrated_to() is None,
        r.retry_secs() is None,
    ensures
        r.is_blocked() <==> mapped_verdict(Err(Error::Api(r))) == Verdict::ChatClosed,
        r.is_blocked() <==> persistent_verdict(Err(Error::Api(r))) == Verdict::ChatClosed,
{
}

/// A refused token outweighs everything. Then comes a chat that has moved, then
/// one that is closed to the bot, then a time to wait, and then the error code.
pub proof fn law_errors_are_told_apart(
    e: ErrorResponse,
    r: RequestError,
    none: RequestError,
    closed: bool,
    messages: Vec<&'static str>,
)
    requires
        call_ensures(map_error, (&Error::Api(e),), r),
        call_ensures(map_error, (&Error::NoResponse,), none),
        call_ensures(telegram_errors, (), messages),
        closed == exists|i: int|
            0 <= i < messages@.len() && (#[trigger] messages@[i])@ == e.description@,
    ensures
        ({
            let refused = e.error_code == 401 || e.error_code == 404;
            let to = match e.parameters {
                Some(p) => p.migrate_to_chat_id,
                None => None,
            };
            let secs = match e.parameters {
                Some(p) => p.retry_after,
                None => None,
            };
            &&& refused <==> r is InvalidToken
            &&& !refused && to is Some <==> r is ChatMigrated
            &&& r matches RequestError::ChatMigrated(id) ==> Some(id) == to
            &&& !refused && to is None && closed <==> r is BotBlocked
            &&& !refused && to is None && !closed && secs is Some <==> r is RetryAfter
            &&& r matches RequestError::RetryAfter(n) ==> secs is Some && n == secs->0
            &&& r is ClientError ==> e.error_code / 100 == 4
            &&& r is Other ==> e.error_code / 100 != 4
        }),
        none is Other,
{
    if closed {
        let i = choose|i: int|
            0 <= i < messages@.len() && (#[trigger] messages@[i])@ == e.description@;
        assert(spec_telegram_errors()[i]@ == e.description@);
        assert(crate::text::listed(spec_telegram_errors(), e.description@));
    }
    if e.is_blocked() {
        let texts = spec_telegram_errors();
        let i = choose|i: int| 0 <= i < texts.len() && #[trigger] texts[i]@ == e.description@;
        assert(messages@[i]@ == e.description@);
    }
}

/// Each error has its own verdict, and only a response without an error means
/// that a message was delivered.
pub proof fn law_verdict_follows_the_error(
    e: Error,
    r: RequestError,
    v: Verdict,
    delivered: Verdict,
)
    requires
        call_ensures(map_error, (&e,), r),
        call_ensures(verdict, (&Err(e),), v),
        call_ensures(verdict, (&Ok(()),), delivered),
    ensures
        delivered is Delivered,
        r is InvalidToken <==> v is InvalidToken,
        r matches RequestError::ChatMigrated(to) ==> v == Verdict::ChatMigrated(to),
        v matches Verdict::ChatMigrated(to) ==> r == RequestError::ChatMigrated(to),
        r is BotBlocked <==> v is ChatClosed,
        r matches RequestError::RetryAfter(n) ==> v == Verdict::RetryAfter(n),
        v matches Verdict::RetryAfter(n) ==> r == RequestError::RetryAfter(n),
        r is ClientError <==> v is Refused,
        r is Other <==> v is Failed,
{
}

/// A sender that never gives a message up agrees with the others, except that a
/// time to wait outweighs a closed chat, and that no message is refused for
/// good.
pub proof fn law_persistent_sender_never_gives_up(
    response: Result<(), Error>,
    v: Verdict,
    p: Verdict,
)
    requires
        call_ensures(verdict, (&response,), v),
        call_ensures(persistent, (&response,), p),
    ensures
        !(p is Refused),
        v is Delivered <==> p is Delivered,
        v is InvalidToken <==> p is InvalidToken,
        v matches Verdict::ChatMigrated(to) ==> p == Verdict::ChatMigrated(to),
        p is ChatMigrated ==> v == p,
        v matches Verdict::RetryAfter(n) ==> p == Verdict::RetryAfter(n),
        p is ChatClosed ==> v is ChatClosed,
        v is ChatClosed ==> p is ChatClosed || (p is RetryAfter && (response matches Err(Error::Api(
            e,
        )) && (e.parameters matches Some(q) && (q.retry_after matches Some(n) && p
            == Verdict::RetryAfter(n as u32))))),
        v is Refused || v is Failed ==> p is Failed,
{
}

/// The messages that close a chat to the bot are all different, and those of
/// errors without a variant are among them.
pub proof fn law_closing_messages(
    all: Vec<&'static str>,
    additional: Vec<&'static str>,
    i: int,
)
    requires
        call_ensures(telegram_errors, (), all),
        call_ensures(additional_errors, (), additional),
        0 <= i < additional@.len(),
    ensures
        all@.len() == 14,
        additional@.len() == 3,
        exists|j: int| 0 <= j < all@.len() && (#[trigger] all@[j])@ == additional@[i]@,
{
    let j: int = if i == 0 {
        9
    } else if i == 1 {
        10
    } else {
        4
    };
    assert(all@[j]@ == additional@[i]@);
}

/// A chat is gone if the error says so, by its kind or, where it has none, by
/// its message. Missing rights make it invalid, too, but not gone.
pub proof fn law_gone_chats(e: &ApiError, gone: bool, invalid: bool, messages: Vec<&'static str>)
    requires
        call_ensures(is_chat_gone, (e,), gone),
        call_ensures(is_chat_invalid, (e,), invalid),
        call_ensures(additional_errors, (), messages),
    ensures
        e is InvalidToken || e is Unrelated || e is NotEnoughRightsToPostMessages ==> !gone,
        !(e is InvalidToken || e is Unrelated || e is NotEnoughRightsToPostMessages
            || e is Unknown) ==> gone,
        *e matches ApiError::Unknown(message) ==> (gone <==> exists|i: int|
            0 <= i < messages@.len() && (#[trigger] messages@[i])@ == message@),
        invalid <==> gone || e is NotEnoughRightsToPostMessages,
{
    if let ApiError::Unknown(message) = e {
        let texts = spec_additional_errors();
        if gone {
            let i = choose|i: int| 0 <= i < texts.len() && #[trigger] texts[i]@ == message@;
            assert(messages@[i]@ == message@);
        }
        if exists|i: int| 0 <= i < messages@.len() && (#[trigger] messages@[i])@ == message@ {
            let i = choose|i: int| 0 <= i < messages@.len() && (#[trigger] messages@[i])@ == message@;
            assert(texts[i]@ == message@);
        }
    }
}

/// The verdict on a response of a typed client closes invalid chats, follows
/// those that moved, and waits as long as is asked for.
pub proof fn law_client_verdicts(
    response: Result<(), ClientError>,
    v: Verdict,
    invalid: bool,
)
    requires
        call_ensures(of_client, (&response,), v),
        response matches Err(ClientError::Api(e)) ==> call_ensures(is_chat_invalid, (&e,), invalid),
    ensures
        response is Ok <==> v is Delivered,
        response matches Err(ClientError::MigrateToChatId(to)) ==> v == Verdict::ChatMigrated(to),
        response matches Err(ClientError::RetryAfter(secs)) ==> v == Verdict::RetryAfter(secs),
        response matches Err(ClientError::NoResponse) ==> v is Failed,
        response matches Err(ClientError::Api(e)) ==> {
            &&& invalid <==> v is ChatClosed
            &&& e is InvalidToken <==> v is InvalidToken
            &&& !invalid && !(e is InvalidToken) ==> v is Failed
        },
{
}

} // verus!
