//! Sends a message with a limited number of attempts, and says what has to be
//! done about the chat afterwards.

use vstd::prelude::*;

use crate::response::{is_chat_gone, ClientError};
use crate::types::ChatId;

verus! {

pub const RETRY_LIMIT: u32 = 5;

pub const BASE_RETRY_DELAY_MS: u64 = 500;

pub const RETRY_MULTIPLIER: u64 = 3;

/// What is known of a chat after a message was sent to it.
#[derive(Debug, Clone, Copy, PartialEq, Eq, Structural)]
pub enum Outcome {
    Active,
    Invalid,
    Migrated(ChatId),
}

/// What to do next.
#[derive(Debug, Clone, Copy, PartialEq, Eq, Structural)]
pub enum AttemptAction {
    /// Wait for so many nanoseconds and send the message to the chat.
    Retry { after: u64, chat_id: ChatId },
    /// Wait for so many nanoseconds and end.
    Finish { after: u64, outcome: Outcome },
}

/// The attempts to send a message.
#[derive(Debug, Clone, Copy, PartialEq, Eq, Structural)]
pub struct Attempts {
    /// The attempts that were made and failed.
    pub failed: u32,
    /// Those of them that failed without a definite reason.
    pub unexplained: u32,
    pub chat_id: ChatId,
    pub outcome: Outcome,
    /// Errors of the API that say nothing about the chat are taken to say that
    /// the message is invalid.
    pub give_up_on_api_errors: bool,
}

/// The time to wait after `n` attempts that failed without a definite reason,
/// in milliseconds.
pub open spec fn retry_delay_ms(n: nat) -> nat {
    (BASE_RETRY_DELAY_MS * vstd::arithmetic::power::pow(RETRY_MULTIPLIER as int, n)) as nat
}

impl Attempts {
    /// No more attempts than the limit allows.
    pub open spec fn wf(self) -> bool {
        self.unexplained <= self.failed < RETRY_LIMIT
    }

    /// Goes on after a failed attempt: with another one as long as the limit
    /// allows.
    pub open spec fn go_on(self, after: u64) -> AttemptAction {
        if self.failed < RETRY_LIMIT {
            AttemptAction::Retry { after, chat_id: self.chat_id }
        } else {
            AttemptAction::Finish { after, outcome: self.outcome }
        }
    }

    /// What is done about a response.
    pub open spec fn step(self, response: Result<(), ClientError>) -> (Self, AttemptAction) {
        let next = Attempts { failed: (self.failed + 1) as u32, ..self };
        let done = AttemptAction::Finish { after: 0, outcome: self.outcome };
        let unexplained = Attempts { unexplained: (self.unexplained + 1) as u32, ..next };
        let delay = (retry_delay_ms(self.unexplained as nat) * 1_000_000) as u64;
        match response {
            Ok(_) => (self, done),
            Err(ClientError::Api(e)) => if crate::response::chat_gone(e) {
                (self, AttemptAction::Finish { after: 0, outcome: Outcome::Invalid })
            } else if self.give_up_on_api_errors {
                (self, done)
            } else {
                (unexplained, unexplained.go_on(delay))
            },
            Err(ClientError::MigrateToChatId(to)) => {
                let moved = Attempts { chat_id: to, outcome: Outcome::Migrated(to), ..next };
                (moved, moved.go_on(0))
            },
            Err(ClientError::RetryAfter(secs)) => (
                next,
                next.go_on((secs * 1_000_000_000) as u64),
            ),
            Err(ClientError::NoResponse) => (unexplained, unexplained.go_on(delay)),
        }
    }

    /// Starts. The first attempt is made at once.
    pub fn new(chat_id: ChatId, give_up_on_api_errors: bool) -> (r: Self)
        ensures
            r.wf(),
            r == (Attempts {
                failed: 0,
                unexplained: 0,
                chat_id,
                outcome: Outcome::Active,
                give_up_on_api_errors,
            }),
    {
        Attempts {
            failed: 0,
            unexplained: 0,
            chat_id,
            outcome: Outcome::Active,
            give_up_on_api_errors,
        }
    }

    /// Goes on after a failed attempt.
    fn next(&self, after: u64) -> (r: AttemptAction)
        ensures
            r == self.go_on(after),
    {
        if self.failed < RETRY_LIMIT {
            AttemptAction::Retry { after, chat_id: self.chat_id }
        } else {
            AttemptAction::Finish { after, outcome: self.outcome }
        }
    }

    /// Goes on after an attempt that failed without a definite reason.
    fn unexplained(&mut self) -> (r: AttemptAction)
        requires
            old(self).wf(),
        ensures
            *final(self) == (Attempts {
                failed: (old(self).failed + 1) as u32,
                unexplained: (old(self).unexplained + 1) as u32,
                ..*old(self)
            }),
            r == final(self).go_on(
                (retry_delay_ms(old(self).unexplained as nat) * 1_000_000) as u64,
            ),
    {
        let mut delay: u64 = BASE_RETRY_DELAY_MS;
        let mut i: u32 = 0;
        proof {
            reveal_with_fuel(vstd::arithmetic::power::pow, 5);
        }
        while i < self.unexplained
            invariant
                i <= self.unexplained <= 4,
                *self == *old(self),
                delay == retry_delay_ms(i as nat),
            decreases self.unexplained - i,
        {
            proof {
                reveal_with_fuel(vstd::arithmetic::power::pow, 6);
                assert(i == 0 || i == 1 || i == 2 || i == 3);
            }
            delay = delay * RETRY_MULTIPLIER;
            i = i + 1;
        }
        proof {
            reveal_with_fuel(vstd::arithmetic::power::pow, 6);
            let u = self.unexplained;
            assert(u == 0 || u == 1 || u == 2 || u == 3 || u == 4);
        }
        self.failed = self.failed + 1;
        self.unexplained = self.unexplained + 1;
        self.next(delay * 1_000_000)
    }

    /// Takes up the response to an attempt.
    pub fn handle(&mut self, response: &Result<(), ClientError>) -> (r: AttemptAction)
        requires
            old(self).wf(),
        ensures
            (*final(self), r) == old(self).step(*response),
            r is Retry ==> final(self).wf(),
    {
        match response {
            Ok(_) => AttemptAction::Finish { after: 0, outcome: self.outcome },
            Err(ClientError::Api(e)) => {
                if is_chat_gone(e) {
                    AttemptAction::Finish { after: 0, outcome: Outcome::Invalid }
                } else if self.give_up_on_api_errors {
                    AttemptAction::Finish { after: 0, outcome: self.outcome }
                } else {
                    self.unexplained()
                }
            },
            Err(ClientError::MigrateToChatId(to)) => {
                self.failed = self.failed + 1;
                self.chat_id = *to;
                self.outcome = Outcome::Migrated(*to);
                self.next(0)
            },
            Err(ClientError::RetryAfter(secs)) => {
                self.failed = self.failed + 1;
                let after: u64 = *secs as u64 * 1_000_000_000;
                self.next(after)
            },
            Err(ClientError::NoResponse) => self.unexplained(),
        }
    }
}

/// There are never more attempts than the limit allows: each that goes on was
/// one more.
pub proof fn law_attempts_limited(a: Attempts, response: Result<(), ClientError>)
    requires
        a.wf(),
    ensures
        a.step(response).1 is Retry ==> a.step(response).0.failed == a.failed + 1 && a.step(
            response,
        ).0.wf(),
        a.failed + 1 == RETRY_LIMIT ==> a.step(response).1 is Finish,
{
}

/// Once a chat has migrated, the message goes to the new chat, and the new chat
/// is what is reported in the end, unless it turns out to be invalid.
pub proof fn law_migration_is_followed(a: Attempts, to: ChatId, response: Result<(), ClientError>)
    requires
        a.wf(),
        a.chat_id == to,
        a.outcome == Outcome::Migrated(to),
        !(response matches Err(ClientError::MigrateToChatId(_))),
    ensures
        match a.step(response).1 {
            AttemptAction::Retry { chat_id, .. } => chat_id == to,
            AttemptAction::Finish { outcome, .. } => outcome == Outcome::Migrated(to) || outcome
                == Outcome::Invalid,
        },
{
}

/// What has to be done about the subscription of a chat.
#[derive(Debug, Clone, Copy, PartialEq, Eq, Structural)]
pub enum SubscriptionUpdate {
    Keep,
    Remove,
    MoveTo(ChatId),
}

/// Says what has to be done about the subscription of a chat.
pub fn subscription_update(outcome: Outcome) -> (r: SubscriptionUpdate)
    ensures
        r == match outcome {
            Outcome::Active => SubscriptionUpdate::Keep,
            Outcome::Invalid => SubscriptionUpdate::Remove,
            Outcome::Migrated(to) => SubscriptionUpdate::MoveTo(to),
        },
{
    match outcome {
        Outcome::Active => SubscriptionUpdate::Keep,
        Outcome::Invalid => SubscriptionUpdate::Remove,
        Outcome::Migrated(to) => SubscriptionUpdate::MoveTo(to),
    }
}

/// What a sender does that waits for messages.
#[derive(Debug, PartialEq, Eq)]
pub enum SenderStep<T> {
    Process(T),
    Stop,
    PollAgain,
}

/// Decides what a sender does after it asked for a message: as long as there
/// are messages they are sent, even if the sender is to stop.
pub fn sender_step<T, E>(popped: Result<Option<T>, E>, stopping: bool) -> (r: SenderStep<T>)
    ensures
        r == match popped {
            Ok(Some(msg)) => SenderStep::Process(msg),
            _ => if stopping {
                SenderStep::Stop
            } else {
                SenderStep::PollAgain
            },
        },
{
    match popped {
        Ok(Some(msg)) => SenderStep::Process(msg),
        _ => {
            if stopping {
                SenderStep::Stop
            } else {
                SenderStep::PollAgain
            }
        },
    }
}

/// An attempt that succeeds ends with what is known of the chat, and one that
/// finds the chat gone with that. Any other is followed by another one, to the
/// chat or where it has moved to, as long as fewer than five failed.
pub proof fn law_attempts_go_on(
    a: &mut Attempts,
    response: Result<(), ClientError>,
    r: AttemptAction,
    gone: bool,
)
    requires
        a.wf(),
        call_ensures(Attempts::handle, (a, &response), r),
        response matches Err(ClientError::Api(e)) ==> call_ensures(is_chat_gone, (&e,), gone),
    ensures
        ({
            let ends = response is Ok || ((response matches Err(ClientError::Api(_))) && (gone
                || old(a).give_up_on_api_errors));
            &&& response is Ok ==> r == (AttemptAction::Finish {
                after: 0,
                outcome: old(a).outcome,
            })
            &&& (response matches Err(ClientError::Api(_))) && gone ==> r
                == (AttemptAction::Finish { after: 0, outcome: Outcome::Invalid })
            &&& (response matches Err(ClientError::Api(_))) && !gone && old(
                a,
            ).give_up_on_api_errors ==> r == (AttemptAction::Finish {
                after: 0,
                outcome: old(a).outcome,
            })
            &&& !ends ==> final(a).failed == old(a).failed + 1
            &&& !ends && old(a).failed + 1 < 5 ==> (r matches AttemptAction::Retry {
                chat_id,
                ..
            } && chat_id == match response {
                Err(ClientError::MigrateToChatId(to)) => to,
                _ => old(a).chat_id,
            })
            &&& !ends && old(a).failed + 1 == 5 ==> (r matches AttemptAction::Finish {
                outcome,
                ..
            } && outcome == match response {
                Err(ClientError::MigrateToChatId(to)) => Outcome::Migrated(to),
                _ => old(a).outcome,
            })
            &&& response matches Err(ClientError::MigrateToChatId(to)) ==> final(a).chat_id == to
                && final(a).outcome == Outcome::Migrated(to)
            &&& !(response matches Err(ClientError::MigrateToChatId(_))) ==> final(a).chat_id
                == old(a).chat_id && final(a).outcome == old(a).outcome
        }),
        final(a).give_up_on_api_errors == old(a).give_up_on_api_errors,
{
}

/// The time that is asked for is waited, and otherwise half a second at first,
/// which grows threefold with each attempt that fails without a reason. A chat
/// that has moved is written to at once.
pub proof fn law_attempts_wait(
    a: &mut Attempts,
    first: AttemptAction,
    b: &mut Attempts,
    second: AttemptAction,
    c: &mut Attempts,
    secs: u32,
    told: AttemptAction,
    d: &mut Attempts,
    to: ChatId,
    moved: AttemptAction,
)
    requires
        a.wf(),
        a.failed + 2 < 5,
        call_ensures(Attempts::handle, (a, &Err(ClientError::NoResponse)), first),
        *b == *final(a),
        call_ensures(Attempts::handle, (b, &Err(ClientError::NoResponse)), second),
        *c == *a,
        call_ensures(Attempts::handle, (c, &Err(ClientError::RetryAfter(secs))), told),
        *d == *a,
        call_ensures(Attempts::handle, (d, &Err(ClientError::MigrateToChatId(to))), moved),
    ensures
        first matches AttemptAction::Retry { after, .. } && (old(a).unexplained == 0 ==> after
            == 500_000_000) && (second matches AttemptAction::Retry { after: then, .. } && then == 3
            * after),
        told matches AttemptAction::Retry { after, .. } && after == secs * 1_000_000_000,
        moved matches AttemptAction::Retry { after, .. } && after == 0,
{
    reveal_with_fuel(vstd::arithmetic::power::pow, 6);
    let u = old(a).unexplained;
    assert(u == 0 || u == 1 || u == 2);
}

/// The first attempt goes to the chat, of which nothing bad is known.
pub proof fn law_attempts_start(chat_id: ChatId, give_up: bool, a: Attempts)
    requires
        call_ensures(Attempts::new, (chat_id, give_up), a),
    ensures
        a.wf(),
        a.failed == 0,
        a.unexplained == 0,
        a.chat_id == chat_id,
        a.outcome is Active,
        a.give_up_on_api_errors == give_up,
{
}

/// The subscription of an invalid chat is removed, that of a chat that has moved
/// goes along, and any other is kept.
pub proof fn law_subscriptions_follow(outcome: Outcome, r: SubscriptionUpdate)
    requires
        call_ensures(subscription_update, (outcome,), r),
    ensures
        outcome is Active <==> r is Keep,
        outcome is Invalid <==> r is Remove,
        outcome matches Outcome::Migrated(to) ==> r == SubscriptionUpdate::MoveTo(to),
{
}

/// A sender works off all messages before it stops, and does not stop unless it
/// is to.
pub proof fn law_sender_works_off_messages<T, E>(
    popped: Result<Option<T>, E>,
    stopping: bool,
    r: SenderStep<T>,
)
    requires
        call_ensures(sender_step::<T, E>, (popped, stopping), r),
    ensures
        popped matches Ok(Some(msg)) ==> r == SenderStep::Process(msg),
        !(popped matches Ok(Some(_))) ==> (if stopping {
            r is Stop
        } else {
            r is PollAgain
        }),
{
}

} // verus!
