//! Registers chats for all notifications, without filters.

use vstd::prelude::*;

verus! {

pub const REGISTERED: &'static str =
    "Du hast dich erfolgreich für Benachrichtigungen registriert.";

pub const ALREADY_REGISTERED: &'static str =
    "Du bist bereits für Benachrichtigungen registriert.";

pub const UNREGISTERED: &'static str = "Du hast die Benachrichtigungen abbestellt.";

pub const NOT_REGISTERED: &'static str =
    "Du warst nicht für Benachrichtigungen registriert.";

pub const INTERNAL_ERROR: &'static str = "Ein interner Fehler ist aufgetreten :((";

/// What the user asks for.
#[derive(Debug, Clone, Copy, PartialEq, Eq, Structural)]
pub enum Request {
    Start,
    Stop,
}

/// The reply to a request, given whether it changed anything.
pub fn reply<E>(request: Request, changed: Result<bool, E>) -> (r: &'static str)
    ensures
        r@ == match (request, changed) {
            (_, Err(_)) => INTERNAL_ERROR@,
            (Request::Start, Ok(true)) => REGISTERED@,
            (Request::Start, Ok(false)) => ALREADY_REGISTERED@,
            (Request::Stop, Ok(true)) => UNREGISTERED@,
            (Request::Stop, Ok(false)) => NOT_REGISTERED@,
        },
{
    match (request, changed) {
        (_, Err(_)) => INTERNAL_ERROR,
        (Request::Start, Ok(true)) => REGISTERED,
        (Request::Start, Ok(false)) => ALREADY_REGISTERED,
        (Request::Stop, Ok(true)) => UNREGISTERED,
        (Request::Stop, Ok(false)) => NOT_REGISTERED,
    }
}

/// What is done when the bot's rights in a chat change: in channels, the chat
/// is registered as long as the bot may post.
pub fn on_permission_change(is_channel: bool, could_post: bool, can_post: bool) -> (r: Option<Request>)
    ensures
        r == (if is_channel && could_post != can_post {
            Some(if can_post {
                Request::Start
            } else {
                Request::Stop
            })
        } else {
            None
        }),
{
    if is_channel && could_post != can_post {
        Some(
            if can_post {
                Request::Start
            } else {
                Request::Stop
            },
        )
    } else {
        None
    }
}

/// The reply tells whether the user was registered before and is now, or that it
/// did not work.
pub proof fn law_reply_tells_what_changed<E>(request: Request, changed: Result<bool, E>, r: &'static str)
    requires
        call_ensures(reply::<E>, (request, changed), r),
    ensures
        changed is Err ==> r@ == "Ein interner Fehler ist aufgetreten :(("@,
        request is Start && (changed matches Ok(b) && b) ==> r@
            == "Du hast dich erfolgreich für Benachrichtigungen registriert."@,
        request is Start && (changed matches Ok(b) && !b) ==> r@
            == "Du bist bereits für Benachrichtigungen registriert."@,
        request is Stop && (changed matches Ok(b) && b) ==> r@
            == "Du hast die Benachrichtigungen abbestellt."@,
        request is Stop && (changed matches Ok(b) && !b) ==> r@
            == "Du warst nicht für Benachrichtigungen registriert."@,
{
}

/// A channel is registered when the bot gets the right to post there, and no
/// longer when the bot loses it. Nothing else changes anything.
pub proof fn law_channels_follow_the_rights(
    is_channel: bool,
    could_post: bool,
    can_post: bool,
    r: Option<Request>,
)
    requires
        call_ensures(on_permission_change, (is_channel, could_post, can_post), r),
    ensures
        r == Some(Request::Start) <==> is_channel && !could_post && can_post,
        r == Some(Request::Stop) <==> is_channel && could_post && !can_post,
{
}

} // verus!
