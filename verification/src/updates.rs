//! Incoming updates: which chat they belong to, in which order they are
//! handled, and which of them are marked as seen.
//!
//! Updates of different chats are handled at the same time, updates of the same
//! chat one after the other.

use std::collections::HashMap;

use vstd::prelude::*;

use crate::types::ChatId;

verus! {

broadcast use vstd::std_specs::hash::group_hash_axioms;

/// How long to wait after a failed request for updates, in seconds.
pub const ERROR_PAUSE_SECS: u64 = 5;

/// How long a request waits for updates, in seconds.
pub const POLL_TIMEOUT_SECS: u32 = 30;

/// What an update is about.
#[derive(Debug, Clone, Copy, PartialEq, Eq, Structural)]
pub enum UpdateKind {
    Message { chat: ChatId },
    MyChatMember { chat: ChatId },
    /// The message that the query comes from may be missing.
    CallbackQuery { message_chat: Option<ChatId> },
    Unsupported,
}

/// The chat that an update belongs to, if it can be handled.
pub fn chat_of(kind: UpdateKind) -> (r: Option<ChatId>)
    ensures
        r == match kind {
            UpdateKind::Message { chat } => Some(chat),
            UpdateKind::MyChatMember { chat } => Some(chat),
            UpdateKind::CallbackQuery { message_chat } => message_chat,
            UpdateKind::Unsupported => None,
        },
{
    match kind {
        UpdateKind::Message { chat } => Some(chat),
        UpdateKind::MyChatMember { chat } => Some(chat),
        UpdateKind::CallbackQuery { message_chat } => message_chat,
        UpdateKind::Unsupported => None,
    }
}

/// The updates that wait for each chat of which an update is being handled.
pub struct Sequencer<T> {
    busy: HashMap<ChatId, Vec<T>>,
}

impl<T> View for Sequencer<T> {
    type V = Map<ChatId, Seq<T>>;

    closed spec fn view(&self) -> Map<ChatId, Seq<T>> {
        self.busy@.map_values(|v: Vec<T>| v@)
    }
}

/// What the arrival of an update makes of the waiting updates, and whether it
/// is handled at once.
pub open spec fn arrive<T>(busy: Map<ChatId, Seq<T>>, chat: ChatId, update: T) -> (
    Map<ChatId, Seq<T>>,
    Option<T>,
) {
    if busy.contains_key(chat) {
        (busy.insert(chat, busy[chat].push(update)), None)
    } else {
        (busy.insert(chat, Seq::empty()), Some(update))
    }
}

/// What the end of a handler makes of the waiting updates, and which update of
/// the chat is handled next.
pub open spec fn finish<T>(busy: Map<ChatId, Seq<T>>, chat: ChatId) -> (
    Map<ChatId, Seq<T>>,
    Option<T>,
) {
    if !busy.contains_key(chat) {
        (busy, None)
    } else if busy[chat].len() == 0 {
        (busy.remove(chat), None)
    } else {
        (busy.insert(chat, busy[chat].skip(1)), Some(busy[chat][0]))
    }
}

impl<T> Sequencer<T> {
    /// No update is being handled.
    pub fn new() -> (r: Self)
        ensures
            r@ == Map::<ChatId, Seq<T>>::empty(),
    {
        let r = Sequencer { busy: HashMap::new() };
        assert(r@ =~= Map::<ChatId, Seq<T>>::empty());
        r
    }

    /// An update has arrived. Answers the update if it has to be handled now.
    pub fn on_update(&mut self, chat: ChatId, update: T) -> (r: Option<T>)
        ensures
            (final(self)@, r) == arrive(old(self)@, chat, update),
    {
        match self.busy.remove(&chat) {
            Some(waiting) => {
                let mut waiting = waiting;
                waiting.push(update);
                self.busy.insert(chat, waiting);
                assert(self@ =~= arrive(old(self)@, chat, update).0);
                None
            },
            None => {
                self.busy.insert(chat, Vec::new());
                assert(self@ =~= arrive(old(self)@, chat, update).0);
                Some(update)
            },
        }
    }

    /// An update of the chat was handled. Answers the next one to be handled.
    pub fn on_finished(&mut self, chat: ChatId) -> (r: Option<T>)
        ensures
            (final(self)@, r) == finish(old(self)@, chat),
    {
        match self.busy.remove(&chat) {
            Some(waiting) => {
                let mut waiting = waiting;
                if waiting.len() == 0 {
                    assert(self@ =~= old(self)@.remove(chat));
                    None
                } else {
                    let ghost before = waiting@;
                    let next = waiting.remove(0);
                    assert(waiting@ =~= before.skip(1));
                    self.busy.insert(chat, waiting);
                    assert(self@ =~= finish(old(self)@, chat).0);
                    Some(next)
                }
            },
            None => {
                assert(self@ =~= old(self)@);
                None
            },
        }
    }

    /// Whether no update is being handled or waits.
    pub fn is_idle(&self) -> (r: bool)
        ensures
            r == (self@ == Map::<ChatId, Seq<T>>::empty()),
    {
        let n: usize = self.busy.len();
        proof {
            if n == 0 {
                assert(self.busy@.dom() =~= Set::<ChatId>::empty());
                assert(self@ =~= Map::<ChatId, Seq<T>>::empty());
            } else {
                if self@ == Map::<ChatId, Seq<T>>::empty() {
                    assert(self@.dom() == self.busy@.dom());
                    assert(self.busy@.dom() =~= Set::<ChatId>::empty());
                }
            }
        }
        n == 0
    }
}

/// An update is handled at once exactly if no update of its chat is being
/// handled. From then on one is.
pub proof fn law_no_parallel_handling<T>(busy: Map<ChatId, Seq<T>>, chat: ChatId, update: T)
    ensures
        arrive(busy, chat, update).1 is Some <==> !busy.contains_key(chat),
        arrive(busy, chat, update).0.contains_key(chat),
        finish(busy, chat).1 is Some ==> busy.contains_key(chat) && finish(
            busy,
            chat,
        ).0.contains_key(chat),
        busy.contains_key(chat) && finish(busy, chat).1 is None ==> !finish(
            busy,
            chat,
        ).0.contains_key(chat),
{
}

/// Updates of a chat are handled in the order in which they arrive, and none is
/// lost: what arrived is at any time what was taken up and then what waits.
pub proof fn law_arrival_order<T>(
    busy: Map<ChatId, Seq<T>>,
    chat: ChatId,
    arrived: Seq<T>,
    taken: Seq<T>,
    update: T,
)
    requires
        busy.contains_key(chat) ==> arrived == taken + busy[chat],
        !busy.contains_key(chat) ==> arrived == taken,
    ensures
        ({
            let (after, start) = arrive(busy, chat, update);
            let taken2 = match start {
                Some(u) => taken.push(u),
                None => taken,
            };
            arrived.push(update) == taken2 + after[chat]
        }),
        ({
            let (after, start) = finish(busy, chat);
            let taken2 = match start {
                Some(u) => taken.push(u),
                None => taken,
            };
            if after.contains_key(chat) {
                arrived == taken2 + after[chat]
            } else {
                arrived == taken2
            }
        }),
{
    if busy.contains_key(chat) {
        let waiting = busy[chat];
        assert(arrived.push(update) =~= taken + waiting.push(update));
        if waiting.len() > 0 {
            assert(taken.push(waiting[0]) + waiting.skip(1) =~= taken + waiting);
        } else {
            assert(taken + waiting =~= taken);
        }
    } else {
        assert(arrived.push(update) =~= taken.push(update) + Seq::<T>::empty());
    }
}

/// What happens to updates.
pub enum SequencerEvent<T> {
    /// An update of the chat has arrived.
    Arrived(ChatId, T),
    /// An update of the chat was handled.
    Finished(ChatId),
}

/// What an event makes of the waiting updates, and which update of the event's
/// chat is handled from then on.
pub open spec fn sequenced<T>(busy: Map<ChatId, Seq<T>>, event: SequencerEvent<T>) -> (
    Map<ChatId, Seq<T>>,
    Option<T>,
) {
    match event {
        SequencerEvent::Arrived(chat, update) => arrive(busy, chat, update),
        SequencerEvent::Finished(chat) => finish(busy, chat),
    }
}

/// The waiting updates after a series of events.
pub open spec fn busy_after<T>(events: Seq<SequencerEvent<T>>) -> Map<ChatId, Seq<T>>
    decreases events.len(),
{
    if events.len() == 0 {
        Map::empty()
    } else {
        sequenced(busy_after(events.drop_last()), events.last()).0
    }
}

/// The updates of a chat that have arrived, in the order of their arrival.
pub open spec fn arrived<T>(events: Seq<SequencerEvent<T>>, chat: ChatId) -> Seq<T>
    decreases events.len(),
{
    if events.len() == 0 {
        Seq::empty()
    } else {
        let before = arrived(events.drop_last(), chat);
        match events.last() {
            SequencerEvent::Arrived(c, update) if c == chat => before.push(update),
            _ => before,
        }
    }
}

/// The updates of a chat that were given to a handler, in the order in which
/// they were.
pub open spec fn started<T>(events: Seq<SequencerEvent<T>>, chat: ChatId) -> Seq<T>
    decreases events.len(),
{
    if events.len() == 0 {
        Seq::empty()
    } else {
        let before = started(events.drop_last(), chat);
        let event = events.last();
        let of_chat = match event {
            SequencerEvent::Arrived(c, _) => c == chat,
            SequencerEvent::Finished(c) => c == chat,
        };
        match sequenced(busy_after(events.drop_last()), event).1 {
            Some(update) if of_chat => before.push(update),
            _ => before,
        }
    }
}

/// How many handlers of updates of a chat have finished.
pub open spec fn finished<T>(events: Seq<SequencerEvent<T>>, chat: ChatId) -> nat
    decreases events.len(),
{
    if events.len() == 0 {
        0
    } else {
        finished(events.drop_last(), chat) + match events.last() {
            SequencerEvent::Finished(c) if c == chat => 1nat,
            _ => 0,
        }
    }
}

/// A handler finishes only while an update of its chat is being handled.
pub open spec fn handlers_run<T>(events: Seq<SequencerEvent<T>>) -> bool
    decreases events.len(),
{
    events.len() > 0 ==> {
        &&& handlers_run(events.drop_last())
        &&& match events.last() {
            SequencerEvent::Finished(chat) => busy_after(events.drop_last()).contains_key(chat),
            _ => true,
        }
    }
}

/// The updates of a chat that wait.
pub open spec fn waiting<T>(busy: Map<ChatId, Seq<T>>, chat: ChatId) -> Seq<T> {
    if busy.contains_key(chat) {
        busy[chat]
    } else {
        Seq::empty()
    }
}

/// Whatever happens, each update of a chat is given to a handler at most once,
/// in the order of arrival, and those that were not yet are the ones that wait.
pub proof fn law_updates_start_in_order<T>(events: Seq<SequencerEvent<T>>, chat: ChatId)
    ensures
        arrived(events, chat) == started(events, chat) + waiting(busy_after(events), chat),
    decreases events.len(),
{
    if events.len() == 0 {
        assert(arrived(events, chat) =~= started(events, chat) + waiting(busy_after(events), chat));
    } else {
        let less = events.drop_last();
        law_updates_start_in_order(less, chat);
        let busy = busy_after(less);
        let taken = started(less, chat);
        match events.last() {
            SequencerEvent::Arrived(c, update) => {
                if c == chat {
                    law_arrival_order(busy, chat, arrived(less, chat), taken, update);
                } else {
                    law_chats_do_not_interfere(busy, c, update, chat);
                }
            },
            SequencerEvent::Finished(c) => {
                if c == chat {
                    if busy.contains_key(chat) && busy[chat].len() > 0 {
                        assert(taken.push(busy[chat][0]) + busy[chat].skip(1) =~= taken
                            + busy[chat]);
                    } else {
                        assert(waiting(busy, chat) =~= waiting(busy_after(events), chat));
                    }
                } else if busy.contains_key(c) && busy[c].len() == 0 {
                    assert(busy_after(events) == busy.remove(c));
                }
            },
        }
    }
}

/// Whatever happens, at most one update of a chat is being handled at a time:
/// of the handlers that were started for the chat all have finished but the one
/// that makes the chat busy.
pub proof fn law_handlers_never_overlap<T>(events: Seq<SequencerEvent<T>>, chat: ChatId)
    requires
        handlers_run(events),
    ensures
        started(events, chat).len() == finished(events, chat) + if busy_after(
            events,
        ).contains_key(chat) {
            1nat
        } else {
            0
        },
    decreases events.len(),
{
    if events.len() > 0 {
        law_handlers_never_overlap(events.drop_last(), chat);
    }
}

/// Once no chat is busy, every update that arrived was given to a handler, and
/// every handler has finished.
pub proof fn law_idle_means_all_handled<T>(events: Seq<SequencerEvent<T>>, chat: ChatId)
    requires
        handlers_run(events),
        busy_after(events) == Map::<ChatId, Seq<T>>::empty(),
    ensures
        started(events, chat) == arrived(events, chat),
        finished(events, chat) == arrived(events, chat).len(),
{
    law_updates_start_in_order(events, chat);
    law_handlers_never_overlap(events, chat);
    assert(started(events, chat) + Seq::<T>::empty() =~= started(events, chat));
}

/// Updates of one chat do not concern the others.
pub proof fn law_chats_do_not_interfere<T>(
    busy: Map<ChatId, Seq<T>>,
    chat: ChatId,
    update: T,
    other: ChatId,
)
    requires
        other != chat,
    ensures
        arrive(busy, chat, update).0.contains_key(other) == busy.contains_key(other),
        finish(busy, chat).0.contains_key(other) == busy.contains_key(other),
        busy.contains_key(other) ==> arrive(busy, chat, update).0[other] == busy[other] && finish(
            busy,
            chat,
        ).0[other] == busy[other],
{
}

/// Where the reading of updates stands.
#[derive(Debug, Clone, Copy, PartialEq, Eq, Structural)]
pub struct Poll {
    /// Updates before this one are not asked for again.
    pub offset: Option<i64>,
    /// All updates were marked as seen by a later request.
    pub marked_seen: bool,
}

/// How to ask for updates.
#[derive(Debug, Clone, Copy, PartialEq, Eq, Structural)]
pub struct PollRequest {
    pub offset: Option<i64>,
    pub timeout_secs: u32,
    pub limit: Option<u32>,
}

impl Poll {
    /// Nothing was read yet.
    pub fn new() -> (r: Self)
        ensures
            r.offset is None,
            r.marked_seen,
    {
        Poll { offset: None, marked_seen: true }
    }

    /// The next request for updates.
    pub fn request(&self) -> (r: PollRequest)
        ensures
            r == (PollRequest {
                offset: self.offset,
                timeout_secs: POLL_TIMEOUT_SECS,
                limit: None,
            }),
    {
        PollRequest { offset: self.offset, timeout_secs: POLL_TIMEOUT_SECS, limit: None }
    }

    /// Updates were read. The request for them marked all earlier ones as seen.
    pub fn on_updates(&mut self, ids: &Vec<u32>)
        ensures
            final(self).marked_seen == (ids@.len() == 0),
            final(self).offset == (if ids@.len() == 0 {
                old(self).offset
            } else {
                Some((ids@.last() + 1) as i64)
            }),
    {
        self.marked_seen = ids.len() == 0;
        if ids.len() > 0 {
            self.offset = Some(ids[ids.len() - 1] as i64 + 1);
        }
    }

    /// The request that marks the last updates as seen at the end, if they were
    /// not.
    pub fn closing_request(&self) -> (r: Option<PollRequest>)
        ensures
            r == (if self.marked_seen {
                None
            } else {
                Some(PollRequest { offset: self.offset, timeout_secs: 0, limit: Some(1) })
            }),
    {
        if self.marked_seen {
            None
        } else {
            Some(PollRequest { offset: self.offset, timeout_secs: 0, limit: Some(1) })
        }
    }
}

/// An update that finds no other one of its chat is handled at once, and any
/// other waits behind those that came before. Other chats are not concerned.
pub proof fn law_updates_wait_their_turn<T>(
    s: &mut Sequencer<T>,
    chat: ChatId,
    update: T,
    r: Option<T>,
    other: ChatId,
)
    requires
        call_ensures(Sequencer::<T>::on_update, (s, chat, update), r),
    ensures
        !old(s)@.contains_key(chat) ==> r == Some(update) && final(s)@[chat].len() == 0,
        old(s)@.contains_key(chat) ==> r is None && final(s)@[chat] == old(s)@[chat].push(update),
        final(s)@.contains_key(chat),
        other != chat ==> (final(s)@.contains_key(other) <==> old(s)@.contains_key(other)),
        other != chat && old(s)@.contains_key(other) ==> final(s)@[other] == old(s)@[other],
{
}

/// When an update was handled, the next one of its chat is, if there is one.
/// Else the chat is free again. Other chats are not concerned.
pub proof fn law_next_update_is_taken_up<T>(
    s: &mut Sequencer<T>,
    chat: ChatId,
    r: Option<T>,
    other: ChatId,
)
    requires
        s@.contains_key(chat),
        call_ensures(Sequencer::<T>::on_finished, (s, chat), r),
    ensures
        old(s)@[chat].len() == 0 ==> r is None && !final(s)@.contains_key(chat),
        old(s)@[chat].len() > 0 ==> r is Some && final(s)@.contains_key(chat) && old(s)@[chat]
            == seq![r->0] + final(s)@[chat],
        other != chat ==> (final(s)@.contains_key(other) <==> old(s)@.contains_key(other)),
        other != chat && old(s)@.contains_key(other) ==> final(s)@[other] == old(s)@[other],
{
    if old(s)@[chat].len() > 0 {
        assert(old(s)@[chat] =~= seq![old(s)@[chat][0]] + old(s)@[chat].skip(1));
    }
}

/// A first update is handled at once, the two that come during that wait, and
/// are taken up in the order in which they came. Then the chat is free.
pub proof fn law_three_updates_in_order<T>(
    s: (
        &mut Sequencer<T>,
        &mut Sequencer<T>,
        &mut Sequencer<T>,
        &mut Sequencer<T>,
        &mut Sequencer<T>,
        &mut Sequencer<T>,
    ),
    chat: ChatId,
    updates: (T, T, T),
    r: (Option<T>, Option<T>, Option<T>, Option<T>, Option<T>, Option<T>),
)
    requires
        !s.0@.contains_key(chat),
        call_ensures(Sequencer::<T>::on_update, (s.0, chat, updates.0), r.0),
        *s.1 == *final(s.0),
        call_ensures(Sequencer::<T>::on_update, (s.1, chat, updates.1), r.1),
        *s.2 == *final(s.1),
        call_ensures(Sequencer::<T>::on_update, (s.2, chat, updates.2), r.2),
        *s.3 == *final(s.2),
        call_ensures(Sequencer::<T>::on_finished, (s.3, chat), r.3),
        *s.4 == *final(s.3),
        call_ensures(Sequencer::<T>::on_finished, (s.4, chat), r.4),
        *s.5 == *final(s.4),
        call_ensures(Sequencer::<T>::on_finished, (s.5, chat), r.5),
    ensures
        r.0 == Some(updates.0),
        r.1 is None,
        r.2 is None,
        r.3 == Some(updates.1),
        r.4 == Some(updates.2),
        r.5 is None,
{
}

/// A sequencer is idle exactly if no chat is busy, as it is at the start.
pub proof fn law_idle_without_busy_chats<T>(s: &Sequencer<T>, r: bool, new: Sequencer<T>)
    requires
        call_ensures(Sequencer::<T>::is_idle, (s,), r),
        call_ensures(Sequencer::<T>::new, (), new),
    ensures
        r <==> forall|chat: ChatId| !#[trigger] s@.contains_key(chat),
        forall|chat: ChatId| !#[trigger] new@.contains_key(chat),
{
    if forall|chat: ChatId| !#[trigger] s@.contains_key(chat) {
        assert(s@ =~= Map::<ChatId, Seq<T>>::empty());
    }
}

/// Updates belong to the chat that they come from.
pub proof fn law_updates_belong_to_chats(kind: UpdateKind, r: Option<ChatId>)
    requires
        call_ensures(chat_of, (kind,), r),
    ensures
        kind matches UpdateKind::Message { chat } ==> r == Some(chat),
        kind matches UpdateKind::MyChatMember { chat } ==> r == Some(chat),
        kind matches UpdateKind::CallbackQuery { message_chat } ==> r == message_chat,
        kind is Unsupported ==> r is None,
{
}

/// Updates that were read are not asked for again, and are marked as seen by the
/// next request, or by the last one, whichever comes first. Where nothing was
/// read, the next request is the same as before, and there is nothing to mark.
pub proof fn law_read_updates_are_marked(
    p: &mut Poll,
    ids: Vec<u32>,
    before: PollRequest,
    after: Poll,
    next: PollRequest,
    last: Option<PollRequest>,
)
    requires
        call_ensures(Poll::request, (&*p,), before),
        call_ensures(Poll::on_updates, (p, &ids), ()),
        after == *final(p),
        call_ensures(Poll::request, (&after,), next),
        call_ensures(Poll::closing_request, (&after,), last),
    ensures
        ids@.len() > 0 ==> next.offset == Some((ids@.last() + 1) as i64),
        ids@.len() > 0 ==> last is Some && last->0.offset == next.offset && last->0.timeout_secs
            == 0 && last->0.limit == Some(1u32),
        ids@.len() == 0 ==> next == before && last is None,
        next.timeout_secs == 30,
        next.limit is None,
{
}

/// At the start all updates that wait are asked for, and there is nothing to
/// mark.
pub proof fn law_first_request_is_open(p: Poll, r: PollRequest, last: Option<PollRequest>)
    requires
        call_ensures(Poll::new, (), p),
        call_ensures(Poll::request, (&p,), r),
        call_ensures(Poll::closing_request, (&p,), last),
    ensures
        r.offset is None,
        last is None,
{
}

} // verus!
