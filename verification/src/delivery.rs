//! The delivery of one message to one chat.
//!
//! Before a message is sent it is acknowledged, so that it is never sent twice
//! even if the process dies right after sending. If sending fails in a way that
//! allows another attempt, the acknowledgement is taken back first.
//!
//! A [`Delivery`] says what to do next. Whoever performs the action reports
//! what came of it, and gets the next action.

use tokio_retry::strategy::{jitter, ExponentialBackoff};
use vstd::prelude::*;

use crate::response::Verdict;
use crate::types::ChatId;

verus! {

/// What is known of a chat after its next update was processed.
#[derive(Debug, PartialEq, Eq)]
pub enum ChatStatus<U> {
    Processed(U),
    OutOfSync,
    Stopped,
    ShuttingDown,
    MigratedTo(ChatId),
}

/// What to do next for a delivery.
#[derive(Debug, PartialEq, Eq)]
pub enum SendAction<U> {
    /// Note the update as sent.
    Acknowledge,
    /// Send the message.
    Send,
    /// Note the update as not sent.
    Unacknowledge,
    /// Tell every sender to stop.
    HardShutdown,
    /// Remove the subscription of the chat.
    RemoveChat,
    /// Move the subscription to another chat.
    MigrateChat(ChatId),
    /// Wait for so many nanoseconds.
    Sleep(u64),
    /// There is nothing left to do.
    Finish(ChatStatus<U>),
}

/// What came of an action.
#[derive(Debug, Clone, Copy, PartialEq, Eq, Structural)]
pub enum SendEvent {
    /// Whether the update was the next one for the chat, and is noted as sent.
    Acknowledged(bool),
    Responded(Verdict),
    /// Whether the update was the last one for the chat, and is noted as not
    /// sent.
    Unacknowledged(bool),
    ShutdownSent,
    Removed,
    Migrated,
    Slept,
}

/// What a delivery waits for.
#[derive(Debug, Clone, Copy, PartialEq, Eq, Structural)]
pub enum Phase {
    Acknowledging,
    Sending,
    StoppingSenders,
    /// The acknowledgement is taken back before the senders stop.
    RevokingForShutdown,
    Removing,
    /// The acknowledgement is taken back before the chat moves.
    RevokingForMigration(ChatId),
    Migrating(ChatId),
    /// The acknowledgement is taken back before another attempt.
    RevokingForRetry(u64),
    Sleeping,
    Finished,
}

/// Whether an event can come in a phase.
pub open spec fn expects(phase: Phase, event: SendEvent) -> bool {
    match phase {
        Phase::Acknowledging => event is Acknowledged,
        Phase::Sending => event is Responded,
        Phase::StoppingSenders => event is ShutdownSent,
        Phase::RevokingForShutdown => event is Unacknowledged,
        Phase::Removing => event is Removed,
        Phase::RevokingForMigration(_) => event is Unacknowledged,
        Phase::Migrating(_) => event is Migrated,
        Phase::RevokingForRetry(_) => event is Unacknowledged,
        Phase::Sleeping => event is Slept,
        Phase::Finished => false,
    }
}

/// Where a delivery stands.
#[verifier::ext_equal]
pub struct DeliveryView<U> {
    pub update: U,
    /// The delays that are left for further attempts, in nanoseconds.
    pub delays: Seq<u64>,
    pub revoke_on_shutdown: bool,
    pub phase: Phase,
    pub message_sent: bool,
}

/// The number of nanoseconds of a number of seconds.
pub open spec fn nanos(secs: u32) -> u64 {
    (secs * 1_000_000_000) as u64
}

impl<U> DeliveryView<U> {
    /// The delivery with another phase.
    pub open spec fn with_phase(self, phase: Phase) -> Self {
        DeliveryView { phase, ..self }
    }

    /// The delivery is done.
    pub open spec fn finish(self, status: ChatStatus<U>) -> (Self, SendAction<U>) {
        (self.with_phase(Phase::Finished), SendAction::Finish(status))
    }

    /// The acknowledgement has to be taken back first.
    pub open spec fn revoke(self, phase: Phase) -> (Self, SendAction<U>) {
        (self.with_phase(phase), SendAction::Unacknowledge)
    }

    /// What is done about a verdict. Each attempt uses up one delay, whether or
    /// not the delay is waited for.
    pub open spec fn on_verdict(self, verdict: Verdict) -> (Self, SendAction<U>) {
        let left = if self.delays.len() > 0 {
            self.delays.skip(1)
        } else {
            self.delays
        };
        let after = DeliveryView { message_sent: true, delays: left, ..self };
        match verdict {
            Verdict::Delivered => after.finish(ChatStatus::Processed(self.update)),
            Verdict::InvalidToken => (
                after.with_phase(Phase::StoppingSenders),
                SendAction::HardShutdown,
            ),
            Verdict::ChatClosed => (after.with_phase(Phase::Removing), SendAction::RemoveChat),
            Verdict::ChatMigrated(to) => after.revoke(Phase::RevokingForMigration(to)),
            Verdict::RetryAfter(secs) => after.revoke(Phase::RevokingForRetry(nanos(secs))),
            Verdict::Refused => after.finish(ChatStatus::Processed(self.update)),
            Verdict::Failed => if self.delays.len() > 0 {
                after.revoke(Phase::RevokingForRetry(self.delays[0]))
            } else {
                after.finish(ChatStatus::Processed(self.update))
            },
        }
    }

    /// What is done about an event.
    pub open spec fn step(self, event: SendEvent) -> (Self, SendAction<U>) {
        match (self.phase, event) {
            (Phase::Acknowledging, SendEvent::Acknowledged(ok)) => if ok {
                (self.with_phase(Phase::Sending), SendAction::Send)
            } else {
                self.finish(ChatStatus::OutOfSync)
            },
            (Phase::Sending, SendEvent::Responded(verdict)) => self.on_verdict(verdict),
            (Phase::StoppingSenders, _) => if self.revoke_on_shutdown {
                self.revoke(Phase::RevokingForShutdown)
            } else {
                self.finish(ChatStatus::ShuttingDown)
            },
            (Phase::RevokingForShutdown, _) => self.finish(ChatStatus::ShuttingDown),
            (Phase::Removing, _) => self.finish(ChatStatus::Stopped),
            (Phase::RevokingForMigration(to), _) => (
                self.with_phase(Phase::Migrating(to)),
                SendAction::MigrateChat(to),
            ),
            (Phase::Migrating(to), _) => self.finish(ChatStatus::MigratedTo(to)),
            (Phase::RevokingForRetry(delay), SendEvent::Unacknowledged(ok)) => if ok {
                (self.with_phase(Phase::Sleeping), SendAction::Sleep(delay))
            } else {
                self.finish(ChatStatus::OutOfSync)
            },
            (Phase::Sleeping, _) => (
                DeliveryView { message_sent: false, ..self.with_phase(Phase::Acknowledging) },
                SendAction::Acknowledge,
            ),
            _ => self.finish(ChatStatus::OutOfSync),
        }
    }
}

/// A message on its way to a chat.
pub struct Delivery<U> {
    chat_id: ChatId,
    update: U,
    delays: Vec<u64>,
    used_delays: usize,
    revoke_on_shutdown: bool,
    phase: Phase,
    message_sent: bool,
}

impl<U> View for Delivery<U> {
    type V = DeliveryView<U>;

    closed spec fn view(&self) -> DeliveryView<U> {
        DeliveryView {
            update: self.update,
            delays: self.delays@.skip(self.used_delays as int),
            revoke_on_shutdown: self.revoke_on_shutdown,
            phase: self.phase,
            message_sent: self.message_sent,
        }
    }
}

impl<U: Copy> Delivery<U> {
    /// No more delays are used up than there are.
    pub closed spec fn wf(&self) -> bool {
        self.used_delays <= self.delays@.len()
    }

    /// The chat that the message goes to.
    pub closed spec fn spec_chat_id(&self) -> ChatId {
        self.chat_id
    }

    /// Starts a delivery. The first action is to acknowledge the update.
    pub fn new(chat_id: ChatId, update: U, delays: Vec<u64>, revoke_on_shutdown: bool) -> (r: Self)
        ensures
            r.wf(),
            r.spec_chat_id() == chat_id,
            r@ == (DeliveryView {
                update,
                delays: delays@,
                revoke_on_shutdown,
                phase: Phase::Acknowledging,
                message_sent: false,
            }),
    {
        let r = Delivery {
            chat_id,
            update,
            delays,
            used_delays: 0,
            revoke_on_shutdown,
            phase: Phase::Acknowledging,
            message_sent: false,
        };
        assert(r@.delays =~= delays@);
        r
    }

    /// The chat that the message goes to.
    pub fn chat_id(&self) -> (r: ChatId)
        ensures
            r == self.spec_chat_id(),
    {
        self.chat_id
    }

    /// The update that the message stands for.
    pub fn update_id(&self) -> (r: U)
        ensures
            r == self@.update,
    {
        self.update
    }

    /// Whether the message was handed to Telegram in the current attempt.
    pub fn message_sent(&self) -> (r: bool)
        ensures
            r == self@.message_sent,
    {
        self.message_sent
    }

    /// What the delivery waits for.
    pub fn phase(&self) -> (r: Phase)
        ensures
            r == self@.phase,
    {
        self.phase
    }

    fn finish(&mut self, status: ChatStatus<U>) -> (r: SendAction<U>)
        requires
            old(self).wf(),
        ensures
            final(self).wf(),
            final(self).spec_chat_id() == old(self).spec_chat_id(),
            (final(self)@, r) == old(self)@.finish(status),
    {
        self.phase = Phase::Finished;
        SendAction::Finish(status)
    }

    fn revoke(&mut self, phase: Phase) -> (r: SendAction<U>)
        requires
            old(self).wf(),
        ensures
            final(self).wf(),
            final(self).spec_chat_id() == old(self).spec_chat_id(),
            (final(self)@, r) == old(self)@.revoke(phase),
    {
        self.phase = phase;
        SendAction::Unacknowledge
    }

    /// Decides what is done about Telegram's response.
    fn handle_response(&mut self, verdict: Verdict) -> (r: SendAction<U>)
        requires
            old(self).wf(),
        ensures
            final(self).wf(),
            final(self).spec_chat_id() == old(self).spec_chat_id(),
            (final(self)@, r) == old(self)@.on_verdict(verdict),
    {
        self.message_sent = true;
        let backoff = if self.used_delays < self.delays.len() {
            let delay: u64 = self.delays[self.used_delays];
            self.used_delays = self.used_delays + 1;
            Some(delay)
        } else {
            None
        };
        assert(backoff is Some ==> self@.delays =~= old(self)@.delays.skip(1));
        match verdict {
            Verdict::Delivered => self.finish(ChatStatus::Processed(self.update)),
            Verdict::InvalidToken => {
                self.phase = Phase::StoppingSenders;
                SendAction::HardShutdown
            },
            Verdict::ChatClosed => {
                self.phase = Phase::Removing;
                SendAction::RemoveChat
            },
            Verdict::ChatMigrated(to) => self.revoke(Phase::RevokingForMigration(to)),
            Verdict::RetryAfter(secs) => {
                let delay: u64 = secs as u64 * 1_000_000_000;
                self.revoke(Phase::RevokingForRetry(delay))
            },
            Verdict::Refused => self.finish(ChatStatus::Processed(self.update)),
            Verdict::Failed => match backoff {
                Some(delay) => self.revoke(Phase::RevokingForRetry(delay)),
                None => self.finish(ChatStatus::Processed(self.update)),
            },
        }
    }

    /// Takes up what came of the last action and says what to do next.
    pub fn handle(&mut self, event: SendEvent) -> (r: SendAction<U>)
        requires
            old(self).wf(),
            expects(old(self)@.phase, event),
        ensures
            final(self).wf(),
            final(self).spec_chat_id() == old(self).spec_chat_id(),
            (final(self)@, r) == old(self)@.step(event),
    {
        match (self.phase, event) {
            (Phase::Acknowledging, SendEvent::Acknowledged(ok)) => {
                if ok {
                    self.phase = Phase::Sending;
                    SendAction::Send
                } else {
                    self.finish(ChatStatus::OutOfSync)
                }
            },
            (Phase::Sending, SendEvent::Responded(verdict)) => self.handle_response(verdict),
            (Phase::StoppingSenders, _) => {
                if self.revoke_on_shutdown {
                    self.revoke(Phase::RevokingForShutdown)
                } else {
                    self.finish(ChatStatus::ShuttingDown)
                }
            },
            (Phase::RevokingForShutdown, _) => self.finish(ChatStatus::ShuttingDown),
            (Phase::Removing, _) => self.finish(ChatStatus::Stopped),
            (Phase::RevokingForMigration(to), _) => {
                self.phase = Phase::Migrating(to);
                SendAction::MigrateChat(to)
            },
            (Phase::Migrating(to), _) => self.finish(ChatStatus::MigratedTo(to)),
            (Phase::RevokingForRetry(delay), SendEvent::Unacknowledged(ok)) => {
                if ok {
                    self.phase = Phase::Sleeping;
                    SendAction::Sleep(delay)
                } else {
                    self.finish(ChatStatus::OutOfSync)
                }
            },
            (Phase::Sleeping, _) => {
                self.phase = Phase::Acknowledging;
                self.message_sent = false;
                SendAction::Acknowledge
            },
            _ => self.finish(ChatStatus::OutOfSync),
        }
    }
}

/// Where a delivery stands after a series of events, and what to do next.
pub open spec fn run<U>(start: DeliveryView<U>, events: Seq<SendEvent>) -> (
    DeliveryView<U>,
    SendAction<U>,
)
    decreases events.len(),
{
    if events.len() == 0 {
        (start, SendAction::Acknowledge)
    } else {
        run(start, events.drop_last()).0.step(events.last())
    }
}

/// Each event of a series is one that the delivery waits for when it comes.
pub open spec fn possible<U>(start: DeliveryView<U>, events: Seq<SendEvent>) -> bool
    decreases events.len(),
{
    events.len() > 0 ==> {
        &&& possible(start, events.drop_last())
        &&& expects(run(start, events.drop_last()).0.phase, events.last())
    }
}

/// Whether the update is noted as sent after a series of events.
pub open spec fn acknowledged(events: Seq<SendEvent>) -> bool
    decreases events.len(),
{
    if events.len() == 0 {
        false
    } else {
        match events.last() {
            SendEvent::Acknowledged(true) => true,
            SendEvent::Unacknowledged(true) => false,
            _ => acknowledged(events.drop_last()),
        }
    }
}

/// The number of attempts that failed without a definite reason.
pub open spec fn failures(events: Seq<SendEvent>) -> nat
    decreases events.len(),
{
    if events.len() == 0 {
        0
    } else {
        failures(events.drop_last()) + if events.last() == SendEvent::Responded(Verdict::Failed) {
            1nat
        } else {
            0
        }
    }
}

/// What the phase says about the acknowledgement.
spec fn phase_acknowledged(phase: Phase) -> Option<bool> {
    match phase {
        Phase::Acknowledging => Some(false),
        Phase::Sending => Some(true),
        Phase::StoppingSenders => Some(true),
        Phase::RevokingForShutdown => Some(true),
        Phase::Removing => Some(true),
        Phase::RevokingForMigration(_) => Some(true),
        Phase::RevokingForRetry(_) => Some(true),
        Phase::Sleeping => Some(false),
        _ => None,
    }
}

/// The phase tells whether the update is noted as sent.
proof fn lemma_phase_acknowledged<U>(start: DeliveryView<U>, events: Seq<SendEvent>)
    requires
        start.phase == Phase::Acknowledging,
        possible(start, events),
    ensures
        ({
            let phase = run(start, events).0.phase;
            phase_acknowledged(phase) is Some ==> phase_acknowledged(phase) == Some(
                acknowledged(events),
            )
        }),
        run(start, events).0.update == start.update,
    decreases events.len(),
{
    if events.len() > 0 {
        lemma_phase_acknowledged(start, events.drop_last());
    }
}

/// A message is sent only right after its update was acknowledged.
pub proof fn law_send_follows_acknowledgement<U>(start: DeliveryView<U>, events: Seq<SendEvent>)
    requires
        start.phase == Phase::Acknowledging,
        possible(start, events),
        run(start, events).1 == SendAction::<U>::Send,
    ensures
        events.len() > 0,
        events.last() == SendEvent::Acknowledged(true),
        acknowledged(events),
{
}

/// Another attempt is made only after the acknowledgement was taken back: the
/// update is never acknowledged twice in a row.
pub proof fn law_retry_follows_revocation<U>(start: DeliveryView<U>, events: Seq<SendEvent>)
    requires
        start.phase == Phase::Acknowledging,
        possible(start, events),
        run(start, events).1 is Sleep || run(start, events).1 is Acknowledge,
    ensures
        !acknowledged(events),
{
    lemma_phase_acknowledged(start, events);
}

/// An update counts as processed only while it is noted as sent, and it is the
/// update that the delivery was started for.
pub proof fn law_processed_is_acknowledged<U>(
    start: DeliveryView<U>,
    events: Seq<SendEvent>,
    update: U,
)
    requires
        start.phase == Phase::Acknowledging,
        possible(start, events),
        run(start, events).1 == SendAction::Finish(ChatStatus::Processed(update)),
    ensures
        acknowledged(events),
        update == start.update,
{
    lemma_phase_acknowledged(start, events.drop_last());
    lemma_phase_acknowledged(start, events);
}

/// Each failure uses up a delay.
proof fn lemma_delays_used<U>(start: DeliveryView<U>, events: Seq<SendEvent>)
    requires
        start.phase == Phase::Acknowledging,
        possible(start, events),
    ensures
        run(start, events).0.phase != Phase::Finished ==> failures(events) + run(
            start,
            events,
        ).0.delays.len() <= start.delays.len(),
    decreases events.len(),
{
    if events.len() > 0 {
        lemma_delays_used(start, events.drop_last());
    }
}

/// As long as a delivery goes on, no more attempts have failed than there were
/// delays: the number of retries is bounded.
pub proof fn law_failures_bounded<U>(start: DeliveryView<U>, events: Seq<SendEvent>)
    requires
        start.phase == Phase::Acknowledging,
        possible(start, events),
        run(start, events).0.phase != Phase::Finished,
    ensures
        failures(events) <= start.delays.len(),
{
    lemma_delays_used(start, events);
}

/// A chat that the bot is shut out of is removed, and one that moved is moved,
/// before the delivery ends.
pub proof fn law_chat_is_cared_for<U>(start: DeliveryView<U>, events: Seq<SendEvent>)
    requires
        start.phase == Phase::Acknowledging,
        possible(start, events),
        events.len() > 0,
    ensures
        run(start, events).1 == SendAction::<U>::Finish(ChatStatus::Stopped) ==> events.last()
            == SendEvent::Removed,
        forall|to: ChatId|
            run(start, events).1 == SendAction::<U>::Finish(ChatStatus::MigratedTo(to))
                ==> events.last() == SendEvent::Migrated,
{
}

/// The milliseconds to wait before the retries of a message.
pub open spec fn spec_backoff_ms() -> Seq<nat> {
    Seq::new(
        6,
        |i: int|
            {
                let ms = (10 * vstd::arithmetic::power::pow(6, (i + 1) as nat)) as nat;
                if ms < 120_000 {
                    ms
                } else {
                    120_000
                }
            },
    )
}

/// The delays before the retries of a message, in nanoseconds: they grow
/// sixfold, up to two minutes.
pub fn backoff_strategy() -> (r: Vec<u64>)
    ensures
        r@.len() == 6,
        forall|i: int| 0 <= i < 6 ==> (#[trigger] r@[i]) == spec_backoff_ms()[i] * 1_000_000,
{
    proof {
        reveal_with_fuel(vstd::arithmetic::power::pow, 7);
    }
    let r: Vec<u64> = vec![
        60_000_000,
        360_000_000,
        2_160_000_000,
        12_960_000_000,
        77_760_000_000,
        120_000_000_000,
    ];
    r
}

/// The delay before the retry after so many others, which grows by a factor
/// each time up to a maximum, in milliseconds.
pub open spec fn grown_delay(base: nat, factor: nat, max: nat, i: nat) -> nat {
    let ms = (factor * vstd::arithmetic::power::pow(base as int, i + 1)) as nat;
    if ms < max {
        ms
    } else {
        max
    }
}

/// [`ExponentialBackoff`] with a base and a maximum in milliseconds and a
/// factor gives delays that start with the product of base and factor, and grow
/// by the base each time up to the maximum. They are given in nanoseconds.
#[verifier::external_body]
fn exponential_backoff(base: u64, factor: u64, max: u64, n: usize) -> (r: Vec<u64>)
    requires
        max <= 1_000_000_000,
        n <= 1000,
    ensures
        r@.len() == n,
        forall|i: int|
            0 <= i < n ==> (#[trigger] r@[i]) == grown_delay(
                base as nat,
                factor as nat,
                max as nat,
                i as nat,
            ) * 1_000_000,
{
    let delays = ExponentialBackoff::from_millis(base)
        .factor(factor)
        .max_delay(std::time::Duration::from_millis(max));
    delays.take(n).map(|d| d.as_nanos() as u64).collect()
}

/// The delays before the retries of a web request, in nanoseconds: they grow
/// twentyfold from twenty milliseconds.
pub fn http_backoff() -> (r: Vec<u64>)
    ensures
        r@.len() == 3,
        forall|i: int|
            0 <= i < 3 ==> (#[trigger] r@[i]) == vstd::arithmetic::power::pow(20, (i + 1) as nat)
                * 1_000_000,
{
    proof {
        reveal_with_fuel(vstd::arithmetic::power::pow, 4);
    }
    let r = exponential_backoff(20, 1, 1_000_000_000, 3);
    assert forall|i: int| 0 <= i < 3 implies (#[trigger] r@[i]) == vstd::arithmetic::power::pow(
        20,
        (i + 1) as nat,
    ) * 1_000_000 by {
        assert(i == 0 || i == 1 || i == 2);
    }
    r
}

/// [`jitter`] shortens a duration by a random factor between zero and one.
/// Only the bound is claimed, and only for durations of at most a thousand
/// seconds: rounding could exceed it for longer ones.
#[verifier::external_body]
fn shortened(nanos: u64) -> (r: u64)
    requires
        nanos <= 1_000_000_000_000,
    ensures
        r <= nanos,
{
    jitter(std::time::Duration::from_nanos(nanos)).as_nanos() as u64
}

/// The longest delays that [`random_backoff`] can give, in nanoseconds: they
/// grow tenfold from a tenth of a second, up to thirty seconds.
pub fn longest_backoff() -> (r: Vec<u64>)
    ensures
        r@.len() == 5,
        forall|i: int|
            0 <= i < 5 ==> (#[trigger] r@[i]) == grown_delay(10, 10, 30_000, i as nat) * 1_000_000,
{
    exponential_backoff(10, 10, 30_000, 5)
}

/// Random delays before the retries of a message, in nanoseconds: those of
/// [`longest_backoff`], each shortened by chance.
pub fn random_backoff() -> (r: Vec<u64>)
    ensures
        r@.len() == 5,
        forall|i: int|
            0 <= i < 5 ==> (#[trigger] r@[i]) <= grown_delay(10, 10, 30_000, i as nat) * 1_000_000,
{
    let longest = longest_backoff();
    let mut r: Vec<u64> = Vec::new();
    let mut i: usize = 0;
    while i < 5
        invariant
            i <= 5,
            longest@.len() == 5,
            forall|j: int|
                0 <= j < 5 ==> (#[trigger] longest@[j]) == grown_delay(10, 10, 30_000, j as nat)
                    * 1_000_000,
            r@.len() == i,
            forall|j: int| 0 <= j < i ==> (#[trigger] r@[j]) <= longest@[j],
        decreases 5 - i,
    {
        r.push(shortened(longest[i]));
        i = i + 1;
    }
    r
}

/// A delivery starts with the acknowledgement of its update, for its chat, with
/// nothing sent and all delays left.
pub proof fn law_delivery_starts_afresh<U: Copy>(
    chat_id: ChatId,
    update: U,
    delays: Vec<u64>,
    revoke: bool,
    d: Delivery<U>,
    chat: ChatId,
    id: U,
    sent: bool,
    phase: Phase,
)
    requires
        call_ensures(Delivery::<U>::new, (chat_id, update, delays, revoke), d),
        call_ensures(Delivery::<U>::chat_id, (&d,), chat),
        call_ensures(Delivery::<U>::update_id, (&d,), id),
        call_ensures(Delivery::<U>::message_sent, (&d,), sent),
        call_ensures(Delivery::<U>::phase, (&d,), phase),
    ensures
        chat == chat_id,
        id == update,
        !sent,
        phase == Phase::Acknowledging,
        d.wf(),
        d@.delays == delays@,
        d@.revoke_on_shutdown == revoke,
{
}

/// What an event leaves alone: the chat, the update and whether a shutdown takes
/// the acknowledgement back. Delays are used up by responses only, one by each.
pub proof fn law_delivery_keeps_its_update<U: Copy>(
    d: &mut Delivery<U>,
    event: SendEvent,
    r: SendAction<U>,
)
    requires
        d.wf(),
        expects(d@.phase, event),
        call_ensures(Delivery::<U>::handle, (d, event), r),
    ensures
        final(d).wf(),
        final(d).spec_chat_id() == old(d).spec_chat_id(),
        final(d)@.update == old(d)@.update,
        final(d)@.revoke_on_shutdown == old(d)@.revoke_on_shutdown,
        final(d)@.delays == (if event is Responded && old(d)@.delays.len() > 0 {
            old(d)@.delays.skip(1)
        } else {
            old(d)@.delays
        }),
        final(d)@.message_sent == (event is Responded || (old(d)@.message_sent
            && !(event is Slept))),
        r is Finish <==> final(d)@.phase == Phase::Finished,
{
}

/// A message is sent exactly after its acknowledgement succeeded. If it fails,
/// the chat is out of step.
pub proof fn law_acknowledged_message_is_sent<U: Copy>(
    d: &mut Delivery<U>,
    event: SendEvent,
    r: SendAction<U>,
)
    requires
        d.wf(),
        expects(d@.phase, event),
        call_ensures(Delivery::<U>::handle, (d, event), r),
    ensures
        r is Send <==> event == SendEvent::Acknowledged(true),
        r is Send ==> final(d)@.phase == Phase::Sending,
        event == SendEvent::Acknowledged(false) ==> r == SendAction::<U>::Finish(
            ChatStatus::OutOfSync,
        ),
{
}

/// What a response leads to. A message that was delivered, or that can never be,
/// is done with, whatever delays are left. A failure is the end only when no
/// delay is left.
pub proof fn law_response_decides<U: Copy>(
    d: &mut Delivery<U>,
    verdict: Verdict,
    r: SendAction<U>,
)
    requires
        d.wf(),
        d@.phase == Phase::Sending,
        call_ensures(Delivery::<U>::handle, (d, SendEvent::Responded(verdict)), r),
    ensures
        verdict is Delivered || verdict is Refused ==> r == SendAction::Finish(
            ChatStatus::Processed(old(d)@.update),
        ),
        verdict is Failed && old(d)@.delays.len() == 0 ==> r == SendAction::Finish(
            ChatStatus::Processed(old(d)@.update),
        ),
        verdict is Failed && old(d)@.delays.len() > 0 ==> r is Unacknowledge,
        verdict is RetryAfter || verdict is ChatMigrated ==> r is Unacknowledge,
        verdict is ChatClosed ==> r is RemoveChat,
        verdict is InvalidToken ==> r is HardShutdown,
{
}

/// A retry: after a failure that allows one, or a demand to wait, the
/// acknowledgement is taken back. If that succeeds, the delivery waits for the
/// next delay, or as long as is demanded, and then starts over with the
/// acknowledgement. If it fails, the chat is out of step.
pub proof fn law_retry_waits_its_time<U: Copy>(
    d1: &mut Delivery<U>,
    verdict: Verdict,
    r1: SendAction<U>,
    d2: &mut Delivery<U>,
    ok: bool,
    r2: SendAction<U>,
    d3: &mut Delivery<U>,
    r3: SendAction<U>,
)
    requires
        d1.wf(),
        d1@.phase == Phase::Sending,
        verdict is RetryAfter || (verdict is Failed && d1@.delays.len() > 0),
        call_ensures(Delivery::<U>::handle, (d1, SendEvent::Responded(verdict)), r1),
        *d2 == *final(d1),
        call_ensures(Delivery::<U>::handle, (d2, SendEvent::Unacknowledged(ok)), r2),
        *d3 == *final(d2),
        ok ==> call_ensures(Delivery::<U>::handle, (d3, SendEvent::Slept), r3),
    ensures
        r1 is Unacknowledge,
        !ok ==> r2 == SendAction::<U>::Finish(ChatStatus::OutOfSync),
        ok && verdict is Failed ==> r2 == SendAction::<U>::Sleep(old(d1)@.delays[0]),
        ok ==> (verdict matches Verdict::RetryAfter(secs) ==> (r2 matches SendAction::Sleep(n) && n
            == secs * 1_000_000_000)),
        ok ==> r3 is Acknowledge && final(d3)@.phase == Phase::Acknowledging
            && !final(d3)@.message_sent,
{
    if let Verdict::RetryAfter(secs) = verdict {
        assert(secs * 1_000_000_000 <= u64::MAX);
    }
}

/// A chat that moved: the acknowledgement is taken back, the subscription moves
/// to the new chat, and the delivery ends there, whether or not it could be taken
/// back.
pub proof fn law_migration_moves_the_chat<U: Copy>(
    d1: &mut Delivery<U>,
    to: ChatId,
    r1: SendAction<U>,
    d2: &mut Delivery<U>,
    ok: bool,
    r2: SendAction<U>,
    d3: &mut Delivery<U>,
    r3: SendAction<U>,
)
    requires
        d1.wf(),
        d1@.phase == Phase::Sending,
        call_ensures(
            Delivery::<U>::handle,
            (d1, SendEvent::Responded(Verdict::ChatMigrated(to))),
            r1,
        ),
        *d2 == *final(d1),
        call_ensures(Delivery::<U>::handle, (d2, SendEvent::Unacknowledged(ok)), r2),
        *d3 == *final(d2),
        call_ensures(Delivery::<U>::handle, (d3, SendEvent::Migrated), r3),
    ensures
        r1 is Unacknowledge,
        r2 == SendAction::<U>::MigrateChat(to),
        r3 == SendAction::<U>::Finish(ChatStatus::MigratedTo(to)),
{
}

/// A chat that the bot is shut out of: the subscription is removed, and the
/// delivery ends with the chat stopped.
pub proof fn law_closed_chat_is_removed<U: Copy>(
    d1: &mut Delivery<U>,
    r1: SendAction<U>,
    d2: &mut Delivery<U>,
    r2: SendAction<U>,
)
    requires
        d1.wf(),
        d1@.phase == Phase::Sending,
        call_ensures(
            Delivery::<U>::handle,
            (d1, SendEvent::Responded(Verdict::ChatClosed)),
            r1,
        ),
        *d2 == *final(d1),
        call_ensures(Delivery::<U>::handle, (d2, SendEvent::Removed), r2),
    ensures
        r1 is RemoveChat,
        r2 == SendAction::<U>::Finish(ChatStatus::Stopped),
{
}

/// A revoked token stops all senders. The acknowledgement is taken back if that
/// is wanted, and the delivery ends either way.
pub proof fn law_invalid_token_stops_senders<U: Copy>(
    d1: &mut Delivery<U>,
    r1: SendAction<U>,
    d2: &mut Delivery<U>,
    r2: SendAction<U>,
    d3: &mut Delivery<U>,
    ok: bool,
    r3: SendAction<U>,
)
    requires
        d1.wf(),
        d1@.phase == Phase::Sending,
        call_ensures(
            Delivery::<U>::handle,
            (d1, SendEvent::Responded(Verdict::InvalidToken)),
            r1,
        ),
        *d2 == *final(d1),
        call_ensures(Delivery::<U>::handle, (d2, SendEvent::ShutdownSent), r2),
        *d3 == *final(d2),
        d1@.revoke_on_shutdown ==> call_ensures(
            Delivery::<U>::handle,
            (d3, SendEvent::Unacknowledged(ok)),
            r3,
        ),
    ensures
        r1 is HardShutdown,
        old(d1)@.revoke_on_shutdown ==> r2 is Unacknowledge && r3 == SendAction::<U>::Finish(
            ChatStatus::ShuttingDown,
        ),
        !old(d1)@.revoke_on_shutdown ==> r2 == SendAction::<U>::Finish(ChatStatus::ShuttingDown),
{
}

/// A message is delivered at most once: in no series of events does anything
/// come after the message was delivered.
pub proof fn law_delivered_once<U>(start: DeliveryView<U>, events: Seq<SendEvent>, i: int)
    requires
        start.phase == Phase::Acknowledging,
        possible(start, events),
        0 <= i < events.len(),
        events[i] == SendEvent::Responded(Verdict::Delivered),
    ensures
        i == events.len() - 1,
        run(start, events).1 == SendAction::Finish(ChatStatus::Processed(start.update)),
    decreases events.len(),
{
    let less = events.drop_last();
    lemma_phase_acknowledged(start, less);
    if i < less.len() {
        assert(less[i] == events[i]);
        law_delivered_once(start, less, i);
        assert(run(start, less).0.phase == Phase::Finished) by {
            assert(less.last() == SendEvent::Responded(Verdict::Delivered));
            assert(expects(run(start, less.drop_last()).0.phase, less.last()));
        }
    }
}

/// Delays before retries grow sixfold from sixty milliseconds, up to two
/// minutes.
pub proof fn law_backoff_grows(delays: Vec<u64>)
    requires
        call_ensures(backoff_strategy, (), delays),
    ensures
        delays@.len() == 6,
        delays@[0] == 60_000_000,
        forall|i: int|
            0 <= i < 5 ==> #[trigger] delays@[i + 1] == (if 6 * delays@[i] < 120_000_000_000 {
                6 * delays@[i]
            } else {
                120_000_000_000
            }),
{
    reveal_with_fuel(vstd::arithmetic::power::pow, 7);
    let d = delays@;
    assert(d[0] == 60_000_000);
    assert(d[1] == 360_000_000);
    assert(d[2] == 2_160_000_000);
    assert(d[3] == 12_960_000_000);
    assert(d[4] == 77_760_000_000);
    assert(d[5] == 120_000_000_000);
    assert forall|i: int| 0 <= i < 5 implies #[trigger] d[i + 1] == (if 6 * d[i]
        < 120_000_000_000 {
        6 * d[i]
    } else {
        120_000_000_000
    }) by {
        assert(i == 0 || i == 1 || i == 2 || i == 3 || i == 4);
    }
}

/// Web requests are retried after twenty milliseconds, and then after twenty
/// times as long each time.
pub proof fn law_web_requests_wait_longer(delays: Vec<u64>)
    requires
        call_ensures(http_backoff, (), delays),
    ensures
        delays@.len() == 3,
        delays@[0] == 20_000_000,
        delays@[1] == 20 * delays@[0],
        delays@[2] == 20 * delays@[1],
{
    reveal_with_fuel(vstd::arithmetic::power::pow, 4);
    assert(delays@[0] == 20_000_000);
    assert(delays@[1] == 400_000_000);
    assert(delays@[2] == 8_000_000_000);
}

/// Random delays are at most a tenth of a second at first, and then at most ten
/// times as long each time, up to thirty seconds.
pub proof fn law_random_delays_are_bounded(longest: Vec<u64>, random: Vec<u64>, i: int)
    requires
        call_ensures(longest_backoff, (), longest),
        call_ensures(random_backoff, (), random),
        0 <= i < 5,
    ensures
        longest@.len() == 5,
        random@.len() == 5,
        longest@[0] == 100_000_000,
        i < 4 ==> longest@[i + 1] == (if 10 * longest@[i] < 30_000_000_000 {
            10 * longest@[i]
        } else {
            30_000_000_000
        }),
        random@[i] <= longest@[i],
{
    reveal_with_fuel(vstd::arithmetic::power::pow, 6);
    assert(longest@[0] == 100_000_000);
    assert(longest@[1] == 1_000_000_000);
    assert(longest@[2] == 10_000_000_000);
    assert(longest@[3] == 30_000_000_000);
    assert(longest@[4] == 30_000_000_000);
    assert(random@[i] <= longest@[i]);
}

/// A delivery tells at any time for which chat and update it is, and whether the
/// message was handed to Telegram in the current attempt.
pub proof fn law_delivery_tells_how_it_stands<U: Copy>(
    d: &mut Delivery<U>,
    event: SendEvent,
    r: SendAction<U>,
    chat_before: ChatId,
    update_before: U,
    sent_before: bool,
    after: Delivery<U>,
    chat: ChatId,
    update: U,
    sent: bool,
)
    requires
        d.wf(),
        expects(d@.phase, event),
        call_ensures(Delivery::<U>::chat_id, (&*d,), chat_before),
        call_ensures(Delivery::<U>::update_id, (&*d,), update_before),
        call_ensures(Delivery::<U>::message_sent, (&*d,), sent_before),
        call_ensures(Delivery::<U>::handle, (d, event), r),
        after == *final(d),
        call_ensures(Delivery::<U>::chat_id, (&after,), chat),
        call_ensures(Delivery::<U>::update_id, (&after,), update),
        call_ensures(Delivery::<U>::message_sent, (&after,), sent),
    ensures
        chat == chat_before,
        update == update_before,
        event is Responded ==> sent,
        event is Slept ==> !sent,
        !(event is Responded) && !(event is Slept) ==> sent == sent_before,
{
}

} // verus!
