//! Schedules and broadcasts messages to chats in a rate-limited and
//! fault-tolerant way.
//!
//! A [`BroadcastLoop`] keeps track of the chats whose next update is being
//! processed, until each chat has caught up with the latest update. Processing
//! a chat consists of finding its next update, checking it against the chat's
//! filters, handing it to the sender, and waiting a moment to comply with the
//! rate limits.

use std::collections::HashMap;

use vstd::prelude::*;

use crate::database::{ChatState, StreamId, UpdateId};
use crate::delivery::ChatStatus;
use crate::types::{matches_any, try_matches_any, ChatId, Filter, Message};

verus! {

broadcast use vstd::std_specs::hash::group_hash_axioms;

/// Entries of the message stream that are kept in memory.
pub const CACHED_ENTRIES: usize = 30;

/// Messages that can wait for the sender.
pub const SENDER_QUEUE: usize = 3;

/// How long to wait after a failed look for updates, in seconds.
pub const ERROR_PAUSE_SECS: u64 = 20;

/// The time between two messages to the same chat, in seconds.
pub fn delay(chat_id: ChatId) -> (secs: u64)
    ensures
        secs == if chat_id < 0 {
            3u64
        } else {
            1u64
        },
{
    if chat_id < 0 {
        3
    } else {
        1
    }
}

/// What there is to do for a chat.
#[derive(Debug, PartialEq, Eq)]
pub enum NextUpdate<U, M> {
    Ready { id: U, msg: M },
    Skipped { id: U },
    OutOfSync,
    Pending { previous: U },
    Migrated { to: ChatId },
    Stopped,
}

/// How a chat's next update is processed.
#[derive(Debug, PartialEq, Eq)]
pub enum Route<U, M> {
    /// The message goes to the sender.
    Send { update: U, message: M },
    /// There is nothing to send.
    Done(ChatStatus<U>),
}

/// Decides how a chat's next update is processed.
pub fn route_update<U, M>(next: NextUpdate<U, M>) -> (r: Route<U, M>)
    ensures
        r == match next {
            NextUpdate::Ready { id, msg } => Route::Send { update: id, message: msg },
            NextUpdate::Skipped { id } => Route::Done(ChatStatus::Processed(id)),
            NextUpdate::OutOfSync => Route::Done(ChatStatus::OutOfSync),
            NextUpdate::Pending { previous } => Route::Done(ChatStatus::Processed(previous)),
            NextUpdate::Migrated { to } => Route::Done(ChatStatus::MigratedTo(to)),
            NextUpdate::Stopped => Route::Done(ChatStatus::Stopped),
        },
{
    match next {
        NextUpdate::Ready { id, msg } => Route::Send { update: id, message: msg },
        NextUpdate::Skipped { id } => Route::Done(ChatStatus::Processed(id)),
        NextUpdate::OutOfSync => Route::Done(ChatStatus::OutOfSync),
        NextUpdate::Pending { previous } => Route::Done(ChatStatus::Processed(previous)),
        NextUpdate::Migrated { to } => Route::Done(ChatStatus::MigratedTo(to)),
        NextUpdate::Stopped => Route::Done(ChatStatus::Stopped),
    }
}

/// The sender's reply for a message: the result, and whether the message was
/// sent. There is none if the sender does not run any more.
pub type SenderReply<U, E> = Option<(Result<ChatStatus<U>, E>, bool)>;

/// Takes up the sender's reply. A chat that was sent a message has to be left
/// alone for so many seconds, counted from the start of its processing.
pub fn on_sender_reply<U, E>(chat_id: ChatId, reply: SenderReply<U, E>) -> (r: (
    Result<ChatStatus<U>, E>,
    Option<u64>,
))
    ensures
        match reply {
            Some((result, sent)) => {
                &&& r.0 == result
                &&& r.1 is Some <==> sent
                &&& sent ==> r.1 == Some(if chat_id < 0 {
                    3u64
                } else {
                    1u64
                })
            },
            None => r.0 == Ok::<ChatStatus<U>, E>(ChatStatus::ShuttingDown) && r.1 is None,
        },
{
    match reply {
        Some((result, true)) => (result, Some(delay(chat_id))),
        Some((result, false)) => (result, None),
        None => (Ok(ChatStatus::ShuttingDown), None),
    }
}

/// What the sender does next: nothing any more after a shutdown or once nobody
/// can hand it messages.
pub fn next_to_send<T>(shutdown: bool, received: Option<T>) -> (r: Option<T>)
    ensures
        r == if shutdown {
            None
        } else {
            received
        },
{
    if shutdown {
        None
    } else {
        received
    }
}

/// Where the search for a chat's next update stands.
#[derive(Debug, PartialEq, Eq)]
pub enum Search<M> {
    /// Look for the entry after this one.
    EntryAfter(StreamId),
    /// Look at the filters of the chat.
    Filters { id: StreamId, msg: M },
    /// Note the entry as sent, though it is not.
    Skip { id: StreamId },
    /// The search is over.
    Found(NextUpdate<StreamId, M>),
}

/// The search after the state of the chat is known.
pub fn on_chat_state<M>(state: ChatState) -> (r: Search<M>)
    ensures
        r == match state {
            ChatState::Active { last_sent } => Search::<M>::EntryAfter(last_sent),
            ChatState::Migrated { to } => Search::Found(NextUpdate::Migrated { to }),
            ChatState::Stopped => Search::Found(NextUpdate::Stopped),
        },
{
    match state {
        ChatState::Active { last_sent } => Search::EntryAfter(last_sent),
        ChatState::Migrated { to } => Search::Found(NextUpdate::Migrated { to }),
        ChatState::Stopped => Search::Found(NextUpdate::Stopped),
    }
}

/// The search after the entry was looked for.
pub fn on_entry<M>(last_sent: StreamId, entry: Option<(StreamId, M)>) -> (r: Search<M>)
    ensures
        r == match entry {
            Some((id, msg)) => Search::Filters { id, msg },
            None => Search::Found(NextUpdate::Pending { previous: last_sent }),
        },
{
    match entry {
        Some((id, msg)) => Search::Filters { id, msg },
        None => Search::Found(NextUpdate::Pending { previous: last_sent }),
    }
}

/// The search after the filters of the chat are known: the message is ready if
/// one of them holds of it, and skipped otherwise.
pub fn on_filters(id: StreamId, msg: Message, filters: &Vec<Filter>) -> (r: Search<Message>)
    ensures
        r == (if crate::types::wanted(
            crate::types::filter_views(filters@),
            crate::types::tag_values(msg.tags@),
        ) {
            Search::Found(NextUpdate::Ready { id, msg })
        } else {
            Search::Skip { id }
        }),
{
    if matches_any(filters, &msg) {
        Search::Found(NextUpdate::Ready { id, msg })
    } else {
        Search::Skip { id }
    }
}

/// The search after the filters of the chat are known, where a pattern that is
/// no regular expression is an error.
pub fn on_checked_filters(id: StreamId, msg: Message, filters: &Vec<Filter>) -> (r: Option<
    Search<Message>,
>)
    ensures
        r == match crate::types::filters_answer(
            crate::types::filter_views(filters@),
            crate::types::tag_values(msg.tags@),
        ) {
            Some(true) => Some(Search::Found(NextUpdate::Ready { id, msg })),
            Some(false) => Some(Search::Skip { id }),
            None => None,
        },
{
    match try_matches_any(filters, &msg) {
        Some(true) => Some(Search::Found(NextUpdate::Ready { id, msg })),
        Some(false) => Some(Search::Skip { id }),
        None => None,
    }
}

/// The search after an entry was noted as sent though it is not.
pub fn on_skipped<M>(id: StreamId) -> (r: NextUpdate<StreamId, M>)
    ensures
        r == (NextUpdate::<StreamId, M>::Skipped { id }),
{
    NextUpdate::Skipped { id }
}

/// The search after an entry was to be noted as sent though it is not, where it
/// matters whether it was the next one for the chat.
pub fn on_skip_acknowledged<M>(id: StreamId, acknowledged: bool) -> (r: NextUpdate<StreamId, M>)
    ensures
        r == (if acknowledged {
            NextUpdate::<StreamId, M>::Skipped { id }
        } else {
            NextUpdate::OutOfSync
        }),
{
    if acknowledged {
        NextUpdate::Skipped { id }
    } else {
        NextUpdate::OutOfSync
    }
}

/// How to look for new updates.
#[derive(Debug, PartialEq, Eq)]
pub struct FeedQuery<U> {
    /// Wait for so many seconds first.
    pub pause_secs: u64,
    /// Wait for an update after this one. If there is none, ask for the latest
    /// update.
    pub after: Option<U>,
}

/// The last update that was seen, after another look. A look that failed changes
/// nothing.
pub open spec fn last_seen<U>(last: Option<U>, found: Option<U>) -> Option<U> {
    match found {
        Some(id) => Some(id),
        None => last,
    }
}

/// The look-out for new updates.
#[derive(Debug, PartialEq, Eq)]
pub struct UpdateFeed<U> {
    pub last: Option<U>,
    pub was_error: bool,
}

impl<U: Copy> UpdateFeed<U> {
    /// Nothing has been seen yet.
    pub fn new() -> (r: Self)
        ensures
            r.last is None,
            !r.was_error,
    {
        UpdateFeed { last: None, was_error: false }
    }

    /// How to look for updates next.
    pub fn query(&self) -> (r: FeedQuery<U>)
        ensures
            r.after == self.last,
            r.pause_secs == if self.was_error {
                ERROR_PAUSE_SECS
            } else {
                0
            },
    {
        FeedQuery { pause_secs: if self.was_error { ERROR_PAUSE_SECS } else { 0 }, after: self.last }
    }

    /// Takes up what was found, unless the look failed. An update that was seen
    /// once is not looked for again.
    pub fn on_result(&mut self, found: Option<(U, Vec<ChatId>)>) -> (r: Option<(U, Vec<ChatId>)>)
        ensures
            r == found,
            final(self).was_error == (found is None),
            final(self).last == last_seen(
                old(self).last,
                match found {
                    Some(item) => Some(item.0),
                    None => None,
                },
            ),
    {
        self.was_error = found.is_none();
        if let Some(item) = &found {
            self.last = Some(item.0);
        }
        found
    }
}

/// The last update that was seen after several looks, of which some may have
/// failed.
pub open spec fn seen_last(looks: Seq<Option<StreamId>>) -> Option<StreamId>
    decreases looks.len(),
{
    if looks.len() == 0 {
        None
    } else {
        last_seen(seen_last(looks.drop_last()), looks.last())
    }
}

/// The updates that several looks have found.
pub open spec fn found_updates(looks: Seq<Option<StreamId>>) -> Seq<StreamId>
    decreases looks.len(),
{
    if looks.len() == 0 {
        Seq::empty()
    } else {
        match looks.last() {
            Some(id) => found_updates(looks.drop_last()).push(id),
            None => found_updates(looks.drop_last()),
        }
    }
}

/// What a look finds comes after the update that it was asked to look after.
pub open spec fn looks_go_on(looks: Seq<Option<StreamId>>) -> bool
    decreases looks.len(),
{
    looks.len() > 0 ==> {
        &&& looks_go_on(looks.drop_last())
        &&& match (seen_last(looks.drop_last()), looks.last()) {
            (Some(last), Some(id)) => last.precedes(id),
            _ => true,
        }
    }
}

/// As long as the database finds only what it was asked for, each update comes
/// after the ones before it. A failed look gives no update and forgets none: the
/// look-out goes on after the last update that it gave.
pub proof fn law_updates_ascend(looks: Seq<Option<StreamId>>)
    requires
        looks_go_on(looks),
    ensures
        forall|i: int, j: int|
            0 <= i < j < found_updates(looks).len() ==> (#[trigger] found_updates(
                looks,
            )[i]).precedes(#[trigger] found_updates(looks)[j]),
        seen_last(looks) == (if found_updates(looks).len() == 0 {
            None
        } else {
            Some(found_updates(looks).last())
        }),
    decreases looks.len(),
{
    if looks.len() > 0 {
        let less = looks.drop_last();
        law_updates_ascend(less);
        if let Some(id) = looks.last() {
            let before = found_updates(less);
            let all = found_updates(looks);
            assert forall|i: int, j: int| 0 <= i < j < all.len() implies (
            #[trigger] all[i]).precedes(#[trigger] all[j]) by {
                if j < before.len() {
                    assert(before[i].precedes(before[j]));
                } else {
                    let n = before.len() - 1;
                    assert(i < n ==> before[i].precedes(before[n]));
                }
            }
        }
    }
}

/// Which chats are being processed, each with the note whether it was triggered
/// meanwhile, and what the latest update is.
#[verifier::ext_equal]
pub struct ManagerView<U> {
    pub latest: Option<U>,
    pub states: Map<ChatId, bool>,
}

impl<U: UpdateId> ManagerView<U> {
    /// The chat may have a new update.
    pub open spec fn trigger(self, chat_id: ChatId) -> Self {
        ManagerView {
            states: self.states.insert(chat_id, self.states.contains_key(chat_id)),
            ..self
        }
    }

    /// Several chats may have a new update.
    pub open spec fn trigger_all(self, chats: Seq<ChatId>) -> Self
        decreases chats.len(),
    {
        if chats.len() == 0 {
            self
        } else {
            self.trigger_all(chats.drop_last()).trigger(chats.last())
        }
    }

    /// The chats whose processing starts when several chats are triggered.
    pub open spec fn started(self, chats: Seq<ChatId>) -> Seq<ChatId>
        decreases chats.len(),
    {
        if chats.len() == 0 {
            Seq::empty()
        } else {
            let before = self.trigger_all(chats.drop_last());
            if before.states.contains_key(chats.last()) {
                self.started(chats.drop_last())
            } else {
                self.started(chats.drop_last()).push(chats.last())
            }
        }
    }

    /// The update comes before the latest one.
    pub open spec fn is_behind(self, update: U) -> bool {
        self.latest is Some && update.before(self.latest->0)
    }

    /// The chat that has to be processed once the processing of a chat has
    /// finished.
    pub open spec fn next_chat<E>(
        self,
        chat_id: ChatId,
        result: Result<ChatStatus<U>, E>,
    ) -> Option<ChatId> {
        let restart = self.states.contains_key(chat_id) ==> self.states[chat_id];
        match result {
            Ok(ChatStatus::Processed(update)) => if self.is_behind(update) {
                Some(chat_id)
            } else {
                None
            },
            Ok(ChatStatus::OutOfSync) => Some(chat_id),
            // It's possible that a user unsubscribes and then quickly
            // re-subscribes. The result is outdated then.
            Ok(ChatStatus::Stopped) => if restart {
                Some(chat_id)
            } else {
                None
            },
            Ok(ChatStatus::MigratedTo(to)) => Some(to),
            Ok(ChatStatus::ShuttingDown) => None,
            Err(_) => None,
        }
    }

    /// The processing of a chat has finished.
    pub open spec fn finished<E>(self, chat_id: ChatId, result: Result<ChatStatus<U>, E>) -> Self {
        let rest = ManagerView { states: self.states.remove(chat_id), ..self };
        match self.next_chat(chat_id, result) {
            Some(next) => rest.trigger(next),
            None => rest,
        }
    }
}

/// Keeps track of the chats that are being processed.
pub struct BroadcastManager<U> {
    latest_entry_id: Option<U>,
    states: HashMap<ChatId, bool>,
}

impl<U> View for BroadcastManager<U> {
    type V = ManagerView<U>;

    closed spec fn view(&self) -> ManagerView<U> {
        ManagerView { latest: self.latest_entry_id, states: self.states@ }
    }
}

impl<U: UpdateId> BroadcastManager<U> {
    /// No chat is being processed.
    pub fn new() -> (r: Self)
        ensures
            r@ == (ManagerView { latest: None::<U>, states: Map::<ChatId, bool>::empty() }),
    {
        BroadcastManager { latest_entry_id: None, states: HashMap::new() }
    }

    /// Whether no chat is being processed.
    pub fn is_idle(&self) -> (r: bool)
        ensures
            r == (self@.states == Map::<ChatId, bool>::empty()),
    {
        let n: usize = self.states.len();
        proof {
            if n == 0 {
                assert(self@.states.dom() =~= Set::<ChatId>::empty());
                assert(self@.states =~= Map::<ChatId, bool>::empty());
            }
        }
        n == 0
    }

    /// Should be called if there's possibly a new message for this chat.
    /// Answers whether the processing of the chat has to be started.
    pub fn trigger_chat(&mut self, chat_id: ChatId) -> (start: bool)
        ensures
            final(self)@ == old(self)@.trigger(chat_id),
            start == !old(self)@.states.contains_key(chat_id),
    {
        let running = self.states.contains_key(&chat_id);
        self.states.insert(chat_id, running);
        !running
    }

    /// Triggers all active chats after a new message has arrived. Answers the
    /// chats whose processing has to be started.
    pub fn on_message_scheduled(&mut self, id: U, active_chats: Vec<ChatId>) -> (start: Vec<ChatId>)
        ensures
            ({
                let before = ManagerView { latest: Some(id), ..old(self)@ };
                &&& final(self)@ == before.trigger_all(active_chats@)
                &&& start@ == before.started(active_chats@)
            }),
    {
        self.latest_entry_id = Some(id);
        let ghost before = self@;
        let mut start: Vec<ChatId> = Vec::new();
        let mut i: usize = 0;
        assert(active_chats@.take(0) =~= Seq::<ChatId>::empty());
        while i < active_chats.len()
            invariant
                i <= active_chats@.len(),
                self@ == before.trigger_all(active_chats@.take(i as int)),
                start@ == before.started(active_chats@.take(i as int)),
            decreases active_chats@.len() - i,
        {
            let chat_id: ChatId = active_chats[i];
            let ghost chats = active_chats@.take(i + 1);
            assert(chats.drop_last() =~= active_chats@.take(i as int));
            assert(chats.last() == chat_id);
            if self.trigger_chat(chat_id) {
                start.push(chat_id);
            }
            i = i + 1;
        }
        assert(active_chats@.take(active_chats@.len() as int) =~= active_chats@);
        assert(before =~= (ManagerView { latest: Some(id), ..old(self)@ }));
        start
    }

    /// Takes up that the processing of a chat has finished. Answers the chat
    /// whose processing has to be started.
    pub fn on_processing_finished<E>(
        &mut self,
        chat_id: ChatId,
        result: Result<ChatStatus<U>, E>,
    ) -> (start: Option<ChatId>)
        ensures
            final(self)@ == old(self)@.finished(chat_id, result),
            start == match old(self)@.next_chat(chat_id, result) {
                Some(next) => if next == chat_id || !old(self)@.states.contains_key(next) {
                    Some(next)
                } else {
                    None
                },
                None => None,
            },
    {
        let restart = match self.states.remove(&chat_id) {
            Some(triggered) => triggered,
            None => true,
        };
        let next = match result {
            Ok(ChatStatus::Processed(update)) => match &self.latest_entry_id {
                Some(latest) => {
                    if update.is_before(latest) {
                        Some(chat_id)
                    } else {
                        None
                    }
                },
                None => None,
            },
            Ok(ChatStatus::OutOfSync) => Some(chat_id),
            Ok(ChatStatus::Stopped) => {
                if restart {
                    Some(chat_id)
                } else {
                    None
                }
            },
            Ok(ChatStatus::MigratedTo(to)) => Some(to),
            Ok(ChatStatus::ShuttingDown) => None,
            Err(_) => None,
        };
        match next {
            Some(next) => {
                if self.trigger_chat(next) {
                    Some(next)
                } else {
                    None
                }
            },
            None => None,
        }
    }
}

/// How the broadcasting is to end.
#[derive(Debug, Clone, Copy, PartialEq, Eq, Structural)]
pub enum ShutdownSignal {
    /// Let all chats catch up first.
    Soft,
    /// End after the message that is being sent.
    Hard,
}

/// What the main loop waits for.
pub enum BroadcastEvent<U, E> {
    /// The sender ended.
    SenderStopped,
    /// Someone asks for an end, or nobody can any more.
    Signal(Option<ShutdownSignal>),
    /// There is an update for some chats, or there will never be one again.
    Update(Option<(U, Vec<ChatId>)>),
    /// The look for updates failed.
    UpdateFailed,
    /// The processing of a chat has finished.
    Finished(ChatId, Result<ChatStatus<U>, E>),
}

/// How the main loop goes on.
#[derive(Debug, Clone, Copy, PartialEq, Eq, Structural)]
pub enum LoopControl {
    Continue,
    /// Tell the sender to stop, wait for it, and end.
    StopSender,
    /// End at once.
    Return,
}

/// Where the main loop stands.
pub struct LoopView<U> {
    pub soft_shutdown: bool,
    pub manager: ManagerView<U>,
}

impl<U: UpdateId> LoopView<U> {
    /// A soft shutdown was asked for, and no chat is being processed.
    pub open spec fn is_done(self) -> bool {
        self.soft_shutdown && self.manager.states == Map::<ChatId, bool>::empty()
    }

    /// Where the main loop stands after an event.
    pub open spec fn after<E>(self, event: BroadcastEvent<U, E>) -> Self {
        match event {
            BroadcastEvent::Signal(Some(ShutdownSignal::Soft)) => LoopView {
                soft_shutdown: true,
                ..self
            },
            BroadcastEvent::Update(None) => LoopView { soft_shutdown: true, ..self },
            BroadcastEvent::Update(Some(item)) => LoopView {
                manager: ManagerView { latest: Some(item.0), ..self.manager }.trigger_all(item.1@),
                ..self
            },
            BroadcastEvent::Finished(chat_id, result) => LoopView {
                manager: self.manager.finished(chat_id, result),
                ..self
            },
            _ => self,
        }
    }

    /// The chats whose processing an event starts.
    pub open spec fn started<E>(self, event: BroadcastEvent<U, E>) -> Seq<ChatId> {
        match event {
            BroadcastEvent::Update(Some(item)) => ManagerView {
                latest: Some(item.0),
                ..self.manager
            }.started(item.1@),
            BroadcastEvent::Finished(chat_id, result) => match self.manager.next_chat(
                chat_id,
                result,
            ) {
                Some(next) => if next == chat_id || !self.manager.states.contains_key(next) {
                    seq![next]
                } else {
                    Seq::empty()
                },
                None => Seq::empty(),
            },
            _ => Seq::empty(),
        }
    }

    /// How the main loop goes on after an event.
    pub open spec fn control<E>(self, event: BroadcastEvent<U, E>) -> LoopControl {
        match event {
            BroadcastEvent::SenderStopped => LoopControl::Return,
            BroadcastEvent::Signal(Some(ShutdownSignal::Hard)) => LoopControl::StopSender,
            BroadcastEvent::Signal(None) => LoopControl::StopSender,
            _ => if self.after(event).is_done() {
                LoopControl::StopSender
            } else {
                LoopControl::Continue
            },
        }
    }
}

/// The main loop of the broadcasting.
pub struct BroadcastLoop<U> {
    soft_shutdown: bool,
    manager: BroadcastManager<U>,
}

impl<U> View for BroadcastLoop<U> {
    type V = LoopView<U>;

    closed spec fn view(&self) -> LoopView<U> {
        LoopView { soft_shutdown: self.soft_shutdown, manager: self.manager@ }
    }
}

impl<U: UpdateId> BroadcastLoop<U> {
    /// Starts without chats.
    pub fn new() -> (r: Self)
        ensures
            !r@.soft_shutdown,
            r@.manager == (ManagerView {
                latest: None::<U>,
                states: Map::<ChatId, bool>::empty(),
            }),
    {
        BroadcastLoop { soft_shutdown: false, manager: BroadcastManager::new() }
    }

    /// Whether no chat is being processed.
    pub fn is_idle(&self) -> (r: bool)
        ensures
            r == (self@.manager.states == Map::<ChatId, bool>::empty()),
    {
        self.manager.is_idle()
    }

    /// Takes up an event. Answers the chats whose processing has to be started,
    /// and how to go on.
    pub fn handle<E>(&mut self, event: BroadcastEvent<U, E>) -> (r: (Vec<ChatId>, LoopControl))
        ensures
            final(self)@ == old(self)@.after(event),
            r.0@ == old(self)@.started(event),
            r.1 == old(self)@.control(event),
    {
        let mut start: Vec<ChatId> = Vec::new();
        match event {
            BroadcastEvent::SenderStopped => return (start, LoopControl::Return),
            BroadcastEvent::Signal(Some(ShutdownSignal::Soft)) => {
                self.soft_shutdown = true;
            },
            BroadcastEvent::Signal(Some(ShutdownSignal::Hard)) => {
                return (start, LoopControl::StopSender);
            },
            BroadcastEvent::Signal(None) => {
                return (start, LoopControl::StopSender);
            },
            BroadcastEvent::Update(Some((id, active_chats))) => {
                start = self.manager.on_message_scheduled(id, active_chats);
            },
            BroadcastEvent::Update(None) => {
                self.soft_shutdown = true;
            },
            BroadcastEvent::UpdateFailed => {},
            BroadcastEvent::Finished(chat_id, result) => {
                if let Some(next) = self.manager.on_processing_finished(chat_id, result) {
                    start.push(next);
                    assert(start@ =~= seq![next]);
                }
            },
        }
        let done = self.soft_shutdown && self.manager.is_idle();
        (
            start,
            if done {
                LoopControl::StopSender
            } else {
                LoopControl::Continue
            },
        )
    }
}

/// Triggering chats makes exactly these chats be processed in addition, and
/// leaves the latest update as it is.
pub proof fn lemma_trigger_all<U: UpdateId>(m: ManagerView<U>, chats: Seq<ChatId>)
    ensures
        m.trigger_all(chats).states.dom() == m.states.dom().union(chats.to_set()),
        m.trigger_all(chats).latest == m.latest,
    decreases chats.len(),
{
    if chats.len() > 0 {
        lemma_trigger_all(m, chats.drop_last());
        assert forall|c: ChatId|
            #![trigger chats.to_set().contains(c)]
            chats.to_set().contains(c) == (chats.drop_last().to_set().contains(c) || c
                == chats.last()) by {
            if chats.contains(c) {
                let i = chats.index_of(c);
                if i < chats.len() - 1 {
                    assert(chats.drop_last()[i] == c);
                }
            }
            if chats.drop_last().contains(c) {
                assert(chats[chats.drop_last().index_of(c)] == c);
            }
            assert(chats[chats.len() - 1] == chats.last());
        }
    }
    assert(m.trigger_all(chats).states.dom() =~= m.states.dom().union(chats.to_set()));
}

/// No chat is ever processed twice at the same time: what an event starts was
/// not being processed before, or has just finished, and is started once.
pub proof fn law_one_processing_per_chat<U: UpdateId>(m: ManagerView<U>, chats: Seq<ChatId>)
    ensures
        m.started(chats).no_duplicates(),
        forall|i: int|
            0 <= i < m.started(chats).len() ==> {
                &&& !m.states.contains_key(#[trigger] m.started(chats)[i])
                &&& m.trigger_all(chats).states.contains_key(m.started(chats)[i])
            },
    decreases chats.len(),
{
    if chats.len() > 0 {
        let rest = chats.drop_last();
        let before = m.trigger_all(rest);
        law_one_processing_per_chat(m, rest);
        lemma_trigger_all(m, rest);
        let started = m.started(chats);
        assert forall|i: int| 0 <= i < started.len() implies {
            &&& !m.states.contains_key(#[trigger] started[i])
            &&& m.trigger_all(chats).states.contains_key(started[i])
        } by {
            if i < m.started(rest).len() {
                assert(started[i] == m.started(rest)[i]);
            }
        }
        assert forall|i: int, j: int| 0 <= i < j < started.len() implies started[i]
            != started[j] by {
            assert(before.states.contains_key(m.started(rest)[i]));
        }
    }
}

/// After an update was announced for some chats, each of them is being
/// processed, and so is every chat that was before.
pub proof fn law_announced_chats_run<U: UpdateId>(m: ManagerView<U>, id: U, chats: Seq<ChatId>)
    ensures
        ({
            let after = ManagerView { latest: Some(id), ..m }.trigger_all(chats);
            &&& after.latest == Some(id)
            &&& forall|c: ChatId| #[trigger]
                after.states.contains_key(c) <==> m.states.contains_key(c) || chats.contains(c)
        }),
{
    let before = ManagerView { latest: Some(id), ..m };
    lemma_trigger_all(before, chats);
    let after = before.trigger_all(chats);
    assert forall|c: ChatId| #[trigger]
        after.states.contains_key(c) <==> m.states.contains_key(c) || chats.contains(c) by {
        assert(after.states.dom().contains(c) <==> before.states.dom().union(
            chats.to_set(),
        ).contains(c));
    }
}

/// A chat that has not caught up is processed again. A chat that was triggered
/// while it was being processed is not given up as stopped.
pub proof fn law_chats_catch_up<U: UpdateId, E>(
    m: ManagerView<U>,
    chat_id: ChatId,
    result: Result<ChatStatus<U>, E>,
)
    requires
        m.states.contains_key(chat_id),
    ensures
        match result {
            Ok(ChatStatus::Processed(update)) => m.is_behind(update) <==> m.finished(
                chat_id,
                result,
            ).states.contains_key(chat_id),
            Ok(ChatStatus::OutOfSync) => m.finished(chat_id, result).states.contains_key(chat_id),
            Ok(ChatStatus::Stopped) => m.states[chat_id] <==> m.finished(
                chat_id,
                result,
            ).states.contains_key(chat_id),
            Ok(ChatStatus::MigratedTo(to)) => m.finished(chat_id, result).states.contains_key(to),
            _ => !m.finished(chat_id, result).states.contains_key(chat_id),
        },
{
}

/// What one chat reports concerns no other chat, but for the one it migrated
/// to.
pub proof fn law_chats_independent<U: UpdateId, E>(
    m: ManagerView<U>,
    chat_id: ChatId,
    result: Result<ChatStatus<U>, E>,
    other: ChatId,
)
    requires
        other != chat_id,
        result != Ok::<ChatStatus<U>, E>(ChatStatus::MigratedTo(other)),
    ensures
        m.finished(chat_id, result).states.contains_key(other) == m.states.contains_key(other),
        m.states.contains_key(other) ==> m.finished(chat_id, result).states[other]
            == m.states[other],
{
}

/// After a soft shutdown the loop goes on exactly as long as chats are being
/// processed.
pub proof fn law_soft_shutdown_lets_chats_finish<U: UpdateId, E>(
    l: LoopView<U>,
    event: BroadcastEvent<U, E>,
)
    requires
        l.soft_shutdown,
        event is Finished || event is Update || event is UpdateFailed,
    ensures
        l.after(event).soft_shutdown,
        l.control(event) == LoopControl::Continue <==> l.after(event).manager.states != Map::<
            ChatId,
            bool,
        >::empty(),
{
}

/// The chats that are being processed just before an event is taken up: those
/// that are noted, without the one that has just finished.
pub open spec fn running<U, E>(l: LoopView<U>, event: BroadcastEvent<U, E>) -> Set<ChatId> {
    match event {
        BroadcastEvent::Finished(chat_id, _) => l.manager.states.dom().remove(chat_id),
        _ => l.manager.states.dom(),
    }
}

/// The note of the chats that are being processed is right: whatever happens,
/// the chats that are noted afterwards are those that still ran and those whose
/// processing is started now, and no chat is started that runs already, or
/// twice. No chat can be noted without anybody processing it.
pub proof fn law_noted_chats_are_processed<U: UpdateId, E>(
    l: &mut BroadcastLoop<U>,
    event: BroadcastEvent<U, E>,
    r: (Vec<ChatId>, LoopControl),
)
    requires
        call_ensures(BroadcastLoop::<U>::handle::<E>, (l, event), r),
    ensures
        final(l)@.manager.states.dom() == running(old(l)@, event).union(r.0@.to_set()),
        running(old(l)@, event).disjoint(r.0@.to_set()),
        r.0@.no_duplicates(),
{
    let states = old(l)@.manager.states;
    let run = running(old(l)@, event);
    match event {
        BroadcastEvent::Update(Some(item)) => {
            let m = ManagerView { latest: Some(item.0), ..old(l)@.manager };
            let chats = item.1@;
            law_one_processing_per_chat(m, chats);
            lemma_trigger_all(m, chats);
            lemma_started_covers(m, chats);
            assert forall|c: ChatId| #[trigger]
                final(l)@.manager.states.dom().contains(c) <==> run.union(
                    r.0@.to_set(),
                ).contains(c) by {
                if r.0@.contains(c) {
                    let i = r.0@.index_of(c);
                    assert(m.trigger_all(chats).states.contains_key(m.started(chats)[i]));
                }
            }
            assert forall|c: ChatId| run.contains(c) implies !r.0@.to_set().contains(c) by {
                if r.0@.contains(c) {
                    let i = r.0@.index_of(c);
                    assert(!m.states.contains_key(m.started(chats)[i]));
                }
            }
        },
        BroadcastEvent::Finished(chat_id, result) => {
            if r.0@.len() > 0 {
                assert(r.0@.to_set() =~= set![r.0@[0]]) by {
                    assert(r.0@ =~= seq![r.0@[0]]);
                    assert(r.0@.contains(r.0@[0]));
                }
            } else {
                assert(r.0@.to_set() =~= Set::<ChatId>::empty());
            }
        },
        _ => {
            assert(r.0@.to_set() =~= Set::<ChatId>::empty());
        },
    }
    assert(final(l)@.manager.states.dom() =~= run.union(r.0@.to_set()));
}

/// Every chat that is triggered runs already or is started.
proof fn lemma_started_covers<U: UpdateId>(m: ManagerView<U>, chats: Seq<ChatId>)
    ensures
        forall|c: ChatId| #[trigger]
            chats.contains(c) ==> m.states.contains_key(c) || m.started(chats).contains(c),
    decreases chats.len(),
{
    if chats.len() > 0 {
        let rest = chats.drop_last();
        lemma_started_covers(m, rest);
        lemma_trigger_all(m, rest);
        let before = m.started(rest);
        let all = m.started(chats);
        assert forall|c: ChatId| #[trigger] chats.contains(c) implies m.states.contains_key(c)
            || all.contains(c) by {
            let i = chats.index_of(c);
            if i < rest.len() {
                assert(rest[i] == c);
                assert(rest.contains(c));
            } else if m.trigger_all(rest).states.dom().contains(c) {
                assert(m.states.dom().union(rest.to_set()).contains(c));
                assert(m.states.contains_key(c) || rest.contains(c));
            } else {
                assert(all[all.len() - 1] == c);
            }
            if before.contains(c) {
                assert(all[before.index_of(c)] == c);
            }
        }
    }
}

/// A chat whose processing ends goes on until it has caught up: it is started
/// again exactly if the update that was processed comes before the latest one,
/// if it has to be looked at anew, or if it seemed to have stopped but was
/// triggered meanwhile.
pub proof fn law_finished_chats_go_on<U: UpdateId, E>(
    l: &mut BroadcastLoop<U>,
    chat_id: ChatId,
    result: Result<ChatStatus<U>, E>,
    r: (Vec<ChatId>, LoopControl),
)
    requires
        call_ensures(
            BroadcastLoop::<U>::handle::<E>,
            (l, BroadcastEvent::Finished(chat_id, result)),
            r,
        ),
    ensures
        match result {
            Ok(ChatStatus::Processed(update)) => match old(l)@.manager.latest {
                Some(latest) => if update.before(latest) {
                    r.0@ == seq![chat_id]
                } else {
                    r.0@.len() == 0
                },
                None => r.0@.len() == 0,
            },
            Ok(ChatStatus::OutOfSync) => r.0@ == seq![chat_id],
            Ok(ChatStatus::Stopped) => if old(l)@.manager.states.contains_key(chat_id)
                && !old(l)@.manager.states[chat_id] {
                r.0@.len() == 0
            } else {
                r.0@ == seq![chat_id]
            },
            Ok(ChatStatus::MigratedTo(to)) => {
                &&& final(l)@.manager.states.contains_key(to)
                &&& r.0@ == if to != chat_id && old(l)@.manager.states.contains_key(to) {
                    Seq::empty()
                } else {
                    seq![to]
                }
            },
            Ok(ChatStatus::ShuttingDown) => r.0@.len() == 0,
            Err(_) => r.0@.len() == 0,
        },
        r.0@.contains(chat_id) ==> !final(l)@.manager.states[chat_id],
        final(l)@.manager.latest == old(l)@.manager.latest,
        forall|c: ChatId|
            c != chat_id && old(l)@.manager.states.contains_key(c) && result != Ok::<ChatStatus<U>, E>(
                ChatStatus::MigratedTo(c),
            ) ==> #[trigger] final(l)@.manager.states[c] == old(l)@.manager.states[c],
        forall|c: ChatId|
            c != chat_id && old(l)@.manager.states.contains_key(c) && result == Ok::<ChatStatus<U>, E>(
                ChatStatus::MigratedTo(c),
            ) ==> #[trigger] final(l)@.manager.states[c],
{
}

/// An update is the latest one from then on, and each of its chats is started,
/// or, if it is being processed, remembers that it was triggered meanwhile. A
/// chat that is not among them is left alone.
pub proof fn law_updates_trigger_chats<U: UpdateId, E>(
    l: &mut BroadcastLoop<U>,
    id: U,
    chats: Vec<ChatId>,
    r: (Vec<ChatId>, LoopControl),
    c: ChatId,
)
    requires
        call_ensures(
            BroadcastLoop::<U>::handle::<E>,
            (l, BroadcastEvent::Update(Some((id, chats)))),
            r,
        ),
    ensures
        final(l)@.manager.latest == Some(id),
        chats@.contains(c) ==> final(l)@.manager.states.contains_key(c),
        chats@.contains(c) && old(l)@.manager.states.contains_key(c) ==> final(l)@.manager.states[c],
        chats@.contains(c) && !old(l)@.manager.states.contains_key(c) ==> r.0@.contains(c),
        chats@.contains(c) && !old(l)@.manager.states.contains_key(c) && chats@.no_duplicates()
            ==> !final(l)@.manager.states[c],
        !chats@.contains(c) ==> !r.0@.contains(c) && final(l)@.manager.states.contains_key(c)
            == old(l)@.manager.states.contains_key(c),
        !chats@.contains(c) && old(l)@.manager.states.contains_key(c) ==> final(l)@.manager.states[c]
            == old(l)@.manager.states[c],
{
    let m = ManagerView { latest: Some(id), ..old(l)@.manager };
    lemma_trigger_all(m, chats@);
    lemma_started_covers(m, chats@);
    lemma_trigger_notes(m, chats@, c);
    assert(m.trigger_all(chats@).states.dom().contains(c) <==> m.states.dom().union(
        chats@.to_set(),
    ).contains(c));
}

/// What triggering chats notes of one of them.
proof fn lemma_trigger_notes<U: UpdateId>(m: ManagerView<U>, chats: Seq<ChatId>, c: ChatId)
    ensures
        ({
            let after = m.trigger_all(chats).states;
            &&& chats.contains(c) && m.states.contains_key(c) ==> after[c]
            &&& chats.contains(c) && !m.states.contains_key(c) && chats.no_duplicates()
                ==> !after[c]
            &&& !chats.contains(c) ==> !m.started(chats).contains(c)
            &&& !chats.contains(c) && m.states.contains_key(c) ==> after[c] == m.states[c]
        }),
    decreases chats.len(),
{
    if chats.len() > 0 {
        let rest = chats.drop_last();
        lemma_trigger_notes(m, rest, c);
        lemma_trigger_all(m, rest);
        let before = m.trigger_all(rest);
        assert(before.states.dom().contains(c) <==> m.states.dom().union(rest.to_set()).contains(
            c,
        ));
        if chats.contains(c) {
            let i = chats.index_of(c);
            if i < rest.len() {
                assert(rest[i] == c);
            }
        }
        if rest.contains(c) {
            assert(chats[rest.index_of(c)] == c);
            if chats.no_duplicates() {
                assert(rest.no_duplicates()) by {
                    assert forall|i: int, j: int|
                        0 <= i < rest.len() && 0 <= j < rest.len() && i != j implies rest[i]
                        != rest[j] by {
                        assert(chats[i] != chats[j]);
                    }
                }
                assert(chats[rest.index_of(c)] != chats[chats.len() - 1]);
            }
        }
        if chats.no_duplicates() {
            assert(rest.no_duplicates()) by {
                assert forall|i: int, j: int|
                    0 <= i < rest.len() && 0 <= j < rest.len() && i != j implies rest[i]
                    != rest[j] by {
                    assert(chats[i] != chats[j]);
                }
            }
        }
        if m.started(chats).contains(c) && !chats.contains(c) {
            let k = m.started(chats).index_of(c);
            assert(chats[chats.len() - 1] == chats.last());
            assert(k < m.started(rest).len());
            assert(m.started(rest)[k] == c);
        }
    }
}

/// When and how the main loop ends: at once if the sender ended, with the sender
/// if that is demanded or nobody can demand it any more, and otherwise as soon as
/// a soft end was asked for, or no update can come any more, and no chat is being
/// processed.
pub proof fn law_loop_ends<U: UpdateId, E>(
    l: &mut BroadcastLoop<U>,
    event: BroadcastEvent<U, E>,
    r: (Vec<ChatId>, LoopControl),
)
    requires
        call_ensures(BroadcastLoop::<U>::handle::<E>, (l, event), r),
    ensures
        event is SenderStopped <==> r.1 == LoopControl::Return,
        event == BroadcastEvent::<U, E>::Signal(Some(ShutdownSignal::Hard)) || event
            == BroadcastEvent::<U, E>::Signal(None) ==> r.1 == LoopControl::StopSender,
        final(l)@.soft_shutdown == (old(l)@.soft_shutdown || event == BroadcastEvent::<U, E>::Signal(
            Some(ShutdownSignal::Soft),
        ) || event == BroadcastEvent::<U, E>::Update(None)),
        event is Update || event is UpdateFailed || event is Finished || event
            == BroadcastEvent::<U, E>::Signal(Some(ShutdownSignal::Soft)) ==> (r.1
            == LoopControl::StopSender <==> final(l)@.soft_shutdown && forall|c: ChatId|
            !final(l)@.manager.states.contains_key(c)),
        !(event is Update || event is Finished) ==> final(l)@.manager == old(l)@.manager,
{
    let states = final(l)@.manager.states;
    if forall|c: ChatId| !states.contains_key(c) {
        assert(states =~= Map::<ChatId, bool>::empty());
    }
}

/// From the state of a chat to its processing: an active chat is looked up from
/// the entry that was sent last, a chat that moved leads to where it moved, and a
/// stopped one is done.
pub proof fn law_chat_state_leads_on<M>(
    state: ChatState,
    search: Search<M>,
    next: NextUpdate<StreamId, M>,
    route: Route<StreamId, M>,
)
    requires
        call_ensures(on_chat_state::<M>, (state,), search),
        call_ensures(route_update::<StreamId, M>, (next,), route),
    ensures
        match state {
            ChatState::Active { last_sent } => search == Search::<M>::EntryAfter(last_sent),
            ChatState::Migrated { to } => search == Search::Found(next) ==> route == Route::<
                StreamId,
                M,
            >::Done(ChatStatus::MigratedTo(to)),
            ChatState::Stopped => search == Search::Found(next) ==> route == Route::<
                StreamId,
                M,
            >::Done(ChatStatus::Stopped),
        },
        state is Active || search is Found,
{
}

/// From the next entry of a chat to its processing: the message goes to the
/// sender exactly if one of the chat's rules wants it. If none does the entry
/// counts as processed, and so does the last one if there is no next one.
pub proof fn law_wanted_entries_are_sent(
    last_sent: StreamId,
    entry: Option<(StreamId, Message)>,
    filters: Vec<Filter>,
    search: Search<Message>,
    checked: Search<Message>,
    wanted: bool,
)
    requires
        call_ensures(on_entry::<Message>, (last_sent, entry), search),
        entry matches Some((id, msg)) ==> {
            &&& call_ensures(on_filters, (id, msg, &filters), checked)
            &&& call_ensures(matches_any, (&filters, &msg), wanted)
        },
    ensures
        match entry {
            Some((id, msg)) => {
                &&& search == (Search::Filters { id, msg })
                &&& checked == if wanted {
                    Search::Found(NextUpdate::Ready { id, msg })
                } else {
                    Search::Skip { id }
                }
            },
            None => search == Search::<Message>::Found(
                NextUpdate::Pending { previous: last_sent },
            ),
        },
{
}

/// Where a pattern that is no regular expression is an error, the rules decide
/// as they do one after the other, and there is no decision if they have none.
pub proof fn law_careful_rules_decide(
    id: StreamId,
    msg: Message,
    filters: Vec<Filter>,
    answer: Option<bool>,
    checked: Option<Search<Message>>,
)
    requires
        call_ensures(try_matches_any, (&filters, &msg), answer),
        call_ensures(on_checked_filters, (id, msg, &filters), checked),
    ensures
        answer is None <==> checked is None,
        answer == Some(true) ==> checked == Some(Search::Found(NextUpdate::Ready { id, msg })),
        answer == Some(false) ==> checked == Some(Search::<Message>::Skip { id }),
{
}

/// Only a message that is ready goes to the sender, unchanged, and every other
/// find says by itself how the chat stands.
pub proof fn law_only_ready_messages_are_sent<M>(
    next: NextUpdate<StreamId, M>,
    route: Route<StreamId, M>,
)
    requires
        call_ensures(route_update::<StreamId, M>, (next,), route),
    ensures
        route is Send <==> next is Ready,
        next matches NextUpdate::Ready { id, msg } ==> (route matches Route::Send {
            update,
            message,
        } && update == id && message == msg),
        next matches NextUpdate::Skipped { id } ==> route == Route::<StreamId, M>::Done(
            ChatStatus::Processed(id),
        ),
        next matches NextUpdate::Pending { previous } ==> route == Route::<StreamId, M>::Done(
            ChatStatus::Processed(previous),
        ),
        next is OutOfSync ==> route == Route::<StreamId, M>::Done(ChatStatus::OutOfSync),
        next is Stopped ==> route == Route::<StreamId, M>::Done(ChatStatus::Stopped),
        next matches NextUpdate::Migrated { to } ==> route == Route::<StreamId, M>::Done(
            ChatStatus::MigratedTo(to),
        ),
{
}

/// An entry that is skipped counts as processed, unless it turns out not to have
/// been the next one for the chat.
pub proof fn law_skipped_entries<M>(
    id: StreamId,
    skipped: NextUpdate<StreamId, M>,
    acknowledged: bool,
    noted: NextUpdate<StreamId, M>,
    route: Route<StreamId, M>,
)
    requires
        call_ensures(on_skipped::<M>, (id,), skipped),
        call_ensures(on_skip_acknowledged::<M>, (id, acknowledged), noted),
        call_ensures(route_update::<StreamId, M>, (noted,), route),
    ensures
        acknowledged ==> noted == skipped && route == Route::<StreamId, M>::Done(
            ChatStatus::Processed(id),
        ),
        !acknowledged ==> route == Route::<StreamId, M>::Done(ChatStatus::OutOfSync),
{
}

/// The sender's word is passed on. A chat is left alone afterwards exactly if it
/// was sent a message: a group for so long that it gets at most twenty messages
/// in a minute, any other chat for so long that it gets at most one in a second.
pub proof fn law_sender_reply_is_passed_on<U, E>(
    chat_id: ChatId,
    reply: SenderReply<U, E>,
    r: (Result<ChatStatus<U>, E>, Option<u64>),
    secs: u64,
)
    requires
        call_ensures(on_sender_reply::<U, E>, (chat_id, reply), r),
        call_ensures(delay, (chat_id,), secs),
    ensures
        reply is None ==> r.0 == Ok::<ChatStatus<U>, E>(ChatStatus::ShuttingDown) && r.1 is None,
        reply matches Some((result, sent)) ==> r.0 == result && r.1 == (if sent {
            Some(secs)
        } else {
            None
        }),
        chat_id < 0 ==> secs * 20 == 60,
        chat_id >= 0 ==> secs == 1,
{
}

/// After a shutdown nothing is sent any more. Before, every message that is
/// received is.
pub proof fn law_sender_takes_all<T>(shutdown: bool, received: Option<T>, r: Option<T>)
    requires
        call_ensures(next_to_send::<T>, (shutdown, received), r),
    ensures
        shutdown ==> r is None,
        !shutdown ==> r == received,
{
}

/// The look-out asks for what comes after the last update that it gave, gives
/// what it finds, and pauses exactly after a failure.
pub proof fn law_look_out_goes_on<U: Copy>(
    feed: &mut UpdateFeed<U>,
    found: Option<(U, Vec<ChatId>)>,
    r: Option<(U, Vec<ChatId>)>,
    before: FeedQuery<U>,
    after: FeedQuery<U>,
)
    requires
        call_ensures(UpdateFeed::<U>::query, (feed,), before),
        call_ensures(UpdateFeed::<U>::on_result, (feed, found), r),
        call_ensures(UpdateFeed::<U>::query, (&*final(feed),), after),
    ensures
        r == found,
        found matches Some(item) ==> after.after == Some(item.0) && after.pause_secs == 0,
        found is None ==> after.after == before.after && after.pause_secs == 20,
{
}

/// At the start the look-out asks for the latest update, without a pause, and the
/// main loop has nothing to do and goes on.
pub proof fn law_look_out_starts<U: UpdateId>(
    feed: UpdateFeed<U>,
    q: FeedQuery<U>,
    l: BroadcastLoop<U>,
)
    requires
        call_ensures(UpdateFeed::<U>::new, (), feed),
        call_ensures(UpdateFeed::<U>::query, (&feed,), q),
        call_ensures(BroadcastLoop::<U>::new, (), l),
    ensures
        q.after is None,
        q.pause_secs == 0,
        !l@.soft_shutdown,
        l@.manager.latest is None,
        forall|c: ChatId| !#[trigger] l@.manager.states.contains_key(c),
{
}

/// A chat that is triggered has to be started exactly if it is not being
/// processed. It is from then on, and one that was remembers that it was
/// triggered meanwhile. Other chats are left alone.
pub proof fn law_triggered_chat_runs<U: UpdateId>(
    m: &mut BroadcastManager<U>,
    chat_id: ChatId,
    start: bool,
    other: ChatId,
)
    requires
        call_ensures(BroadcastManager::<U>::trigger_chat, (m, chat_id), start),
    ensures
        start <==> !old(m)@.states.contains_key(chat_id),
        final(m)@.states.contains_key(chat_id),
        final(m)@.states[chat_id] <==> !start,
        final(m)@.latest == old(m)@.latest,
        other != chat_id ==> (final(m)@.states.contains_key(other) <==> old(
            m,
        )@.states.contains_key(other)),
        other != chat_id && old(m)@.states.contains_key(other) ==> final(m)@.states[other] == old(
            m,
        )@.states[other],
{
}

/// A new update is the latest one from then on. Of its chats, those that are not
/// being processed are started, each of them once.
pub proof fn law_scheduled_update_starts_chats<U: UpdateId>(
    m: &mut BroadcastManager<U>,
    id: U,
    chats: Vec<ChatId>,
    start: Vec<ChatId>,
    c: ChatId,
)
    requires
        call_ensures(BroadcastManager::<U>::on_message_scheduled, (m, id, chats), start),
    ensures
        final(m)@.latest == Some(id),
        start@.contains(c) <==> chats@.contains(c) && !old(m)@.states.contains_key(c),
        start@.no_duplicates(),
        final(m)@.states.contains_key(c) <==> old(m)@.states.contains_key(c) || chats@.contains(c),
        chats@.contains(c) && old(m)@.states.contains_key(c) ==> final(m)@.states[c],
        !chats@.contains(c) && old(m)@.states.contains_key(c) ==> final(m)@.states[c] == old(
            m,
        )@.states[c],
{
    let before = ManagerView { latest: Some(id), ..old(m)@ };
    law_one_processing_per_chat(before, chats@);
    lemma_trigger_all(before, chats@);
    lemma_started_covers(before, chats@);
    lemma_trigger_notes(before, chats@, c);
    assert(before.trigger_all(chats@).states.dom().contains(c) <==> before.states.dom().union(
        chats@.to_set(),
    ).contains(c));
    if start@.contains(c) {
        let i = start@.index_of(c);
        assert(!before.states.contains_key(before.started(chats@)[i]));
    }
}

/// What the main loop does about the end of a chat's processing is what the
/// manager says.
pub proof fn law_manager_decides_what_goes_on<U: UpdateId, E>(
    m: &mut BroadcastManager<U>,
    chat_id: ChatId,
    result: Result<ChatStatus<U>, E>,
    start: Option<ChatId>,
)
    requires
        call_ensures(
            BroadcastManager::<U>::on_processing_finished::<E>,
            (m, chat_id, result),
            start,
        ),
    ensures
        match result {
            Ok(ChatStatus::Processed(update)) => start == (if old(m)@.latest is Some
                && update.before(old(m)@.latest->0) {
                Some(chat_id)
            } else {
                None
            }),
            Ok(ChatStatus::OutOfSync) => start == Some(chat_id),
            Ok(ChatStatus::Stopped) => start is None <==> old(m)@.states.contains_key(chat_id)
                && !old(m)@.states[chat_id],
            Ok(ChatStatus::MigratedTo(to)) => {
                &&& final(m)@.states.contains_key(to)
                &&& start is None <==> to != chat_id && old(m)@.states.contains_key(to)
                &&& start is Some ==> start == Some(to)
            },
            Ok(ChatStatus::ShuttingDown) => start is None,
            Err(_) => start is None,
        },
        start matches Some(c) ==> final(m)@.states.contains_key(c) && !final(m)@.states[c],
        start is None && !(result matches Ok(ChatStatus::MigratedTo(_))) ==> !final(m)@.states.contains_key(
            chat_id,
        ),
        (result matches Ok(ChatStatus::Stopped)) && start is Some ==> start == Some(chat_id),
        final(m)@.latest == old(m)@.latest,
{
}

/// A manager starts with nothing to do, and has nothing to do exactly while no
/// chat is being processed.
pub proof fn law_idle_manager<U: UpdateId>(
    new: BroadcastManager<U>,
    m: &BroadcastManager<U>,
    idle: bool,
)
    requires
        call_ensures(BroadcastManager::<U>::new, (), new),
        call_ensures(BroadcastManager::<U>::is_idle, (m,), idle),
    ensures
        new@.latest is None,
        forall|c: ChatId| !#[trigger] new@.states.contains_key(c),
        idle <==> forall|c: ChatId| !#[trigger] m@.states.contains_key(c),
{
    if forall|c: ChatId| !#[trigger] m@.states.contains_key(c) {
        assert(m@.states =~= Map::<ChatId, bool>::empty());
    }
}

/// Chats are started in the order in which they are given: one more chat at the
/// end is started after the others, if it is at all.
pub proof fn law_chats_start_in_order<U: UpdateId>(
    m: &mut BroadcastManager<U>,
    id: U,
    less: Vec<ChatId>,
    start: Vec<ChatId>,
    n: &mut BroadcastManager<U>,
    more: Vec<ChatId>,
    last: ChatId,
    longer: Vec<ChatId>,
)
    requires
        *m == *n,
        more@ == less@.push(last),
        call_ensures(BroadcastManager::<U>::on_message_scheduled, (m, id, less), start),
        call_ensures(BroadcastManager::<U>::on_message_scheduled, (n, id, more), longer),
    ensures
        less@.len() == 0 ==> start@.len() == 0,
        longer@ == if old(m)@.states.contains_key(last) || less@.contains(last) {
            start@
        } else {
            start@.push(last)
        },
{
    let before = ManagerView { latest: Some(id), ..old(m)@ };
    assert(more@.drop_last() =~= less@);
    lemma_trigger_all(before, less@);
    assert(before.trigger_all(less@).states.dom().contains(last) <==> before.states.dom().union(
        less@.to_set(),
    ).contains(last));
}

} // verus!
