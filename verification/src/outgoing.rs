//! Outgoing messages wait in one queue per chat. A task per chat takes them out
//! one by one, replies before broadcasts, and a dispatcher hands each message
//! to the task of its chat.

use std::collections::HashMap;

use vstd::prelude::*;

use crate::response::{is_chat_gone, ClientError};
use crate::types::ChatId;

verus! {

broadcast use vstd::std_specs::hash::group_hash_axioms;

pub const GROUP_MESSAGES_PER_MINUTE: u64 = 20;

pub const CHAT_MESSAGES_PER_SECOND: u64 = 1;

pub const BROADCASTS_PER_SECOND: u64 = 30;

/// How often the dispatcher looks for messages that no queue knows, in seconds.
pub const ORPHAN_CHECK_SECS: u64 = 120;

/// How long messages for an invalid chat are still taken in and deleted, in
/// seconds.
pub const CLEANUP_SECS: u64 = 60;

/// A message that failed is retried after so many nanoseconds.
pub const RETRY_NANOS: u64 = 5_000_000_000;

/// The time between two messages of a chat, in milliseconds: the longest that
/// one of the limits asks for.
pub fn message_interval_millis() -> (ms: u64)
    ensures
        ms == vstd::math::max(
            1000int / CHAT_MESSAGES_PER_SECOND as int,
            60_000int / GROUP_MESSAGES_PER_MINUTE as int,
        ),
{
    let chat: u64 = 1000 / CHAT_MESSAGES_PER_SECOND;
    let group: u64 = 60_000 / GROUP_MESSAGES_PER_MINUTE;
    if chat >= group {
        chat
    } else {
        group
    }
}

/// A message that waits in a queue.
pub trait QueueEntry: Sized {
    /// The order in which entries are taken out.
    spec fn before(&self, other: &Self) -> bool;

    /// No entry comes before itself.
    proof fn irreflexive(&self)
        ensures
            !self.before(self),
    ;

    /// The order is transitive.
    proof fn transitive(&self, second: &Self, third: &Self)
        requires
            self.before(second),
            second.before(third),
        ensures
            self.before(third),
    ;

    /// Of two different entries one comes before the other.
    proof fn total(&self, other: &Self)
        ensures
            self.before(other) || other.before(self) || *self == *other,
    ;

    /// The entry answers a message of a user.
    spec fn spec_is_reply(&self) -> bool;

    /// The chat that the entry is for.
    spec fn spec_chat(&self) -> ChatId;

    /// Whether the entry comes before another one.
    fn is_before(&self, other: &Self) -> (r: bool)
        ensures
            r == self.before(other),
    ;

    /// Whether the entry answers a message of a user.
    fn is_reply(&self) -> (r: bool)
        ensures
            r == self.spec_is_reply(),
    ;

    /// The chat that the entry is for.
    fn get_chat(&self) -> (r: ChatId)
        ensures
            r == self.spec_chat(),
    ;
}

/// Names a message that is kept in the database. Entries are taken out by
/// priority, then in the order of their keys.
#[derive(Debug, Clone, Copy, PartialEq, Eq, PartialOrd, Ord, Structural)]
pub struct ScheduledMessageKey {
    pub priority: u64,
    pub key: u64,
    pub chat_id: ChatId,
}

impl QueueEntry for ScheduledMessageKey {
    open spec fn before(&self, other: &Self) -> bool {
        ||| self.priority < other.priority
        ||| self.priority == other.priority && self.key < other.key
        ||| self.priority == other.priority && self.key == other.key && self.chat_id
            < other.chat_id
    }

    proof fn irreflexive(&self) {
    }

    proof fn transitive(&self, second: &Self, third: &Self) {
    }

    proof fn total(&self, other: &Self) {
    }

    open spec fn spec_is_reply(&self) -> bool {
        self.priority == 1
    }

    open spec fn spec_chat(&self) -> ChatId {
        self.chat_id
    }

    fn is_before(&self, other: &Self) -> bool {
        self.priority < other.priority || (self.priority == other.priority && self.key < other.key)
            || (self.priority == other.priority && self.key == other.key && self.chat_id
            < other.chat_id)
    }

    fn is_reply(&self) -> bool {
        self.priority == 1
    }

    fn get_chat(&self) -> ChatId {
        self.chat_id
    }
}

/// Why an entry was not processed.
#[derive(Debug, PartialEq, Eq)]
pub enum QueueEntryError<Q> {
    /// The entry has to be processed again after so many nanoseconds.
    Retry { entry: Q, retry_after: u64 },
    /// The chat cannot be written to.
    ChatInvalid,
}

/// Entries in the order in which they are taken out, each of them once.
pub open spec fn in_order<E: QueueEntry>(entries: Seq<E>) -> bool {
    forall|i: int, j: int|
        0 <= i < j < entries.len() ==> #[trigger] entries[i].before(#[trigger] &entries[j])
}

/// The entries that wait for a chat.
pub struct Queue<E> {
    entries: Vec<E>,
    invalidated: bool,
}

impl<E> View for Queue<E> {
    type V = Seq<E>;

    /// The entries in the order in which they are taken out.
    closed spec fn view(&self) -> Seq<E> {
        self.entries@
    }
}

impl<E: QueueEntry> Queue<E> {
    /// The entries are in order.
    pub open spec fn wf(&self) -> bool {
        in_order(self@)
    }

    /// The chat of the queue turned out to be invalid.
    pub closed spec fn spec_invalidated(&self) -> bool {
        self.invalidated
    }

    /// Starts without entries.
    pub fn new() -> (r: Self)
        ensures
            r.wf(),
            r@ == Seq::<E>::empty(),
            !r.spec_invalidated(),
    {
        Queue { entries: Vec::new(), invalidated: false }
    }

    /// Notes that the chat of the queue is invalid.
    pub fn invalidate(&mut self)
        ensures
            final(self)@ == old(self)@,
            final(self).spec_invalidated(),
    {
        self.invalidated = true;
    }

    /// Whether the chat of the queue turned out to be invalid.
    pub fn invalidated(&self) -> (r: bool)
        ensures
            r == self.spec_invalidated(),
    {
        self.invalidated
    }

    /// Whether no entry waits.
    pub fn is_empty(&self) -> (r: bool)
        ensures
            r == (self@.len() == 0),
    {
        self.entries.len() == 0
    }

    /// Adds an entry, unless it is there already. Answers whether it was added.
    pub fn add_item(&mut self, item: E) -> (added: bool)
        requires
            old(self).wf(),
        ensures
            final(self).wf(),
            final(self)@.to_set() == old(self)@.to_set().insert(item),
            added == !old(self)@.contains(item),
            final(self)@.len() == old(self)@.len() + if added {
                1int
            } else {
                0int
            },
            final(self).spec_invalidated() == old(self).spec_invalidated(),
    {
        let ghost before = self.entries@;
        let mut i: usize = 0;
        while i < self.entries.len() && self.entries[i].is_before(&item)
            invariant
                self.entries@ == before,
                self.invalidated == old(self).invalidated,
                i <= before.len(),
                forall|j: int| 0 <= j < i ==> #[trigger] before[j].before(&item),
            decreases before.len() - i,
        {
            i = i + 1;
        }
        if i < self.entries.len() && !item.is_before(&self.entries[i]) {
            proof {
                item.total(&before[i as int]);
                assert(before[i as int] == item);
                assert(before.to_set().insert(item) =~= before.to_set());
            }
            return false;
        }
        self.entries.insert(i, item);
        proof {
            let after = self.entries@;
            assert forall|j: int| i <= j < before.len() implies #[trigger] item.before(
                &before[j],
            ) by {
                if j > i {
                    assert(before[i as int].before(&before[j]));
                    item.transitive(&before[i as int], &before[j]);
                }
            }
            assert forall|a: int, b: int| 0 <= a < b < after.len() implies #[trigger] after[a].before(
                #[trigger] &after[b],
            ) by {
                if a < i && b > i {
                    assert(before[a].before(&before[b - 1]));
                } else if a < i && b < i {
                    assert(before[a].before(&before[b]));
                } else if a > i {
                    assert(before[a - 1].before(&before[b - 1]));
                }
            }
            assert(!before.contains(item)) by {
                if before.contains(item) {
                    let k = before.index_of(item);
                    item.irreflexive();
                    assert(k < i ==> before[k].before(&item));
                    assert(k >= i ==> item.before(&before[k]));
                }
            }
            assert forall|e: E| after.to_set().contains(e) == before.to_set().insert(item).contains(
                e,
            ) by {
                if before.contains(e) {
                    let k = before.index_of(e);
                    assert(after[if k < i { k } else { k + 1 }] == e);
                }
                assert(after[i as int] == item);
                if after.contains(e) && e != item {
                    let k = after.index_of(e);
                    assert(before[if k < i { k } else { k - 1 }] == e);
                }
            }
            assert(after.to_set() =~= before.to_set().insert(item));
        }
        true
    }

    /// Adds entries. Answers how many of them were not there already.
    pub fn add_items(&mut self, items: Vec<E>) -> (added: usize)
        requires
            old(self).wf(),
        ensures
            final(self).wf(),
            final(self)@.to_set() == old(self)@.to_set().union(items@.to_set()),
            added == final(self)@.len() - old(self)@.len(),
            final(self).spec_invalidated() == old(self).spec_invalidated(),
    {
        let ghost all = items@;
        let mut items = items;
        let total: usize = items.len();
        let mut added: usize = 0;
        assert(self@.to_set() =~= old(self)@.to_set().union(Seq::<E>::empty().to_set()));
        assert(all.skip(all.len() as int) =~= Seq::<E>::empty());
        while items.len() > 0
            invariant
                self.wf(),
                items@.len() <= all.len(),
                items@ == all.take(items@.len() as int),
                self@.to_set() == old(self)@.to_set().union(
                    all.skip(items@.len() as int).to_set(),
                ),
                added == self@.len() - old(self)@.len(),
                added <= all.len() - items@.len(),
                all.len() == total,
                self.spec_invalidated() == old(self).spec_invalidated(),
            decreases items@.len(),
        {
            let ghost n = items@.len() as int;
            let ghost was = self@;
            match items.pop() {
                Some(item) => {
                    assert(item == all[n - 1]);
                    if self.add_item(item) {
                        added = added + 1;
                    }
                    proof {
                        let rest = all.skip(n);
                        let more = all.skip(n - 1);
                        assert(more =~= seq![item] + rest);
                        assert forall|e: E|
                            more.to_set().contains(e) == rest.to_set().insert(item).contains(
                                e,
                            ) by {
                            if rest.contains(e) {
                                assert(more[rest.index_of(e) + 1] == e);
                            }
                            assert(more[0] == item);
                            if more.contains(e) && e != item {
                                assert(rest[more.index_of(e) - 1] == e);
                            }
                        }
                        assert(self@.to_set() =~= old(self)@.to_set().union(more.to_set()));
                        assert(items@ =~= all.take(n - 1));
                    }
                },
                None => {},
            }
        }
        assert(all.skip(0) =~= all);
        added
    }

    /// Takes out the first entry. If only replies are wanted, it is left where
    /// it is unless it is one.
    pub fn take_next(&mut self, only_replies: bool) -> (r: Option<E>)
        requires
            old(self).wf(),
        ensures
            final(self).wf(),
            final(self).spec_invalidated() == old(self).spec_invalidated(),
            if old(self)@.len() > 0 && (!only_replies || old(self)@[0].spec_is_reply()) {
                r == Some(old(self)@[0]) && final(self)@ == old(self)@.skip(1)
            } else {
                r is None && final(self)@ == old(self)@
            },
    {
        if self.entries.len() == 0 {
            return None;
        }
        if only_replies && !self.entries[0].is_reply() {
            return None;
        }
        let ghost before = self.entries@;
        let first = self.entries.remove(0);
        assert(self.entries@ =~= before.skip(1));
        assert forall|a: int, b: int|
            0 <= a < b < self.entries@.len() implies #[trigger] self.entries@[a].before(
            #[trigger] &self.entries@[b],
        ) by {
            assert(before[a + 1].before(&before[b + 1]));
        }
        Some(first)
    }
}

/// No message waits twice in a queue.
pub proof fn law_no_entry_twice<E: QueueEntry>(queue: Queue<E>)
    requires
        queue.wf(),
    ensures
        queue@.no_duplicates(),
{
    assert forall|i: int, j: int| 0 <= i < j < queue@.len() implies queue@[i] != queue@[j] by {
        assert(queue@[i].before(&queue@[j]));
        queue@[i].irreflexive();
    }
}

/// What a chat's stream of entries waits for.
#[derive(Debug, PartialEq, Eq)]
pub enum StreamState<E> {
    /// For the next entry.
    Entry,
    /// For a permit to send the broadcast, or for a reply to send meanwhile.
    PermitOrReply(E),
}

/// What happens to a chat's stream of entries.
pub enum StreamEvent<E, P> {
    /// The first entry of the queue.
    Entry(E),
    /// A reply that came while the stream waits for a permit.
    Reply(E),
    /// A permit to send a broadcast.
    Permit(P),
}

/// Decides in which order entries are sent, and which of them need a permit:
/// replies go out at once, broadcasts wait for a permit.
pub fn next_in_stream<E: QueueEntry, P>(state: StreamState<E>, event: StreamEvent<E, P>) -> (r: (
    StreamState<E>,
    Option<(Option<P>, E)>,
))
    requires
        state is Entry <==> event is Entry,
    ensures
        match (state, event) {
            (StreamState::Entry, StreamEvent::Entry(entry)) => if entry.spec_is_reply() {
                r.0 is Entry && r.1 == Some((None::<P>, entry))
            } else {
                r.0 == StreamState::PermitOrReply(entry) && r.1 is None
            },
            (StreamState::PermitOrReply(waiting), StreamEvent::Reply(reply)) => {
                r.0 == StreamState::PermitOrReply(waiting) && r.1 == Some((None::<P>, reply))
            },
            (StreamState::PermitOrReply(waiting), StreamEvent::Permit(permit)) => {
                r.0 is Entry && r.1 == Some((Some(permit), waiting))
            },
            _ => true,
        },
{
    match (state, event) {
        (StreamState::Entry, StreamEvent::Entry(entry)) => {
            if entry.is_reply() {
                (StreamState::Entry, Some((None, entry)))
            } else {
                (StreamState::PermitOrReply(entry), None)
            }
        },
        (StreamState::PermitOrReply(waiting), StreamEvent::Reply(reply)) => {
            (StreamState::PermitOrReply(waiting), Some((None, reply)))
        },
        (StreamState::PermitOrReply(waiting), StreamEvent::Permit(permit)) => {
            (StreamState::Entry, Some((Some(permit), waiting)))
        },
        (state, _) => (state, None),
    }
}

/// What happens to the task of a chat.
pub enum TaskEvent<E, P> {
    /// The task is told to end, or nobody can tell it anything any more.
    Shutdown { hard: bool },
    Disconnected,
    /// The next entry of the chat's stream, or that there will be none again.
    Entry(Option<(Option<P>, E)>),
    /// The time to process the current entry has come.
    Timer,
    /// The entry with this permit was processed.
    Processed(Option<P>, Result<(), QueueEntryError<E>>),
}

/// What the task of a chat does next.
#[derive(Debug, PartialEq, Eq)]
pub enum TaskAction<E, P> {
    /// Wait for the next event.
    Wait,
    /// Wait for the next event, and set the timer to so many nanoseconds.
    SetTimer(u64),
    /// Process the entry.
    Process(Option<P>, E),
    /// Give the permit back after its period, and wait for the next event.
    Release(P),
    /// End. If the chat is invalid, give the permit back after its period and
    /// delete what is left in the queue.
    End { invalid: bool, release: Option<P> },
}

/// The task of a chat.
pub struct ChatTask<E, P> {
    pub soft_shutdown: bool,
    pub current: Option<(Option<P>, E)>,
}

impl<E, P> ChatTask<E, P> {
    /// Starts without an entry.
    pub fn new() -> (r: Self)
        ensures
            !r.soft_shutdown,
            r.current is None,
    {
        ChatTask { soft_shutdown: false, current: None }
    }

    /// Whether the task can end: it was asked to, and there is nothing left to
    /// do.
    pub fn is_done(&self, queue_empty: bool) -> (r: bool)
        ensures
            r == (self.soft_shutdown && self.current is None && queue_empty),
    {
        self.soft_shutdown && self.current.is_none() && queue_empty
    }

    /// Takes up an event.
    pub fn handle(&mut self, event: TaskEvent<E, P>) -> (r: TaskAction<E, P>)
        requires
            event is Entry ==> old(self).current is None,
            event is Timer ==> old(self).current is Some,
            event is Processed ==> old(self).current is None,
        ensures
            match event {
                TaskEvent::Disconnected => {
                    &&& *final(self) == *old(self)
                    &&& r == (TaskAction::<E, P>::End { invalid: false, release: None })
                },
                TaskEvent::Shutdown { hard } => {
                    &&& final(self).current == old(self).current
                    &&& if hard {
                        &&& final(self).soft_shutdown == old(self).soft_shutdown
                        &&& r == (TaskAction::<E, P>::End { invalid: false, release: None })
                    } else {
                        &&& final(self).soft_shutdown
                        &&& r == TaskAction::<E, P>::Wait
                    }
                },
                TaskEvent::Entry(entry) => {
                    &&& final(self).soft_shutdown == old(self).soft_shutdown
                    &&& final(self).current == entry
                    &&& r == if entry is Some {
                        TaskAction::<E, P>::SetTimer(0)
                    } else {
                        TaskAction::Wait
                    }
                },
                TaskEvent::Timer => {
                    &&& final(self).soft_shutdown == old(self).soft_shutdown
                    &&& final(self).current is None
                    &&& match old(self).current {
                        Some((permit, entry)) => r == TaskAction::Process(permit, entry),
                        None => false,
                    }
                },
                TaskEvent::Processed(permit, result) => {
                    &&& final(self).soft_shutdown == old(self).soft_shutdown
                    &&& match result {
                        Ok(_) => {
                            &&& final(self).current is None
                            &&& r == match permit {
                                Some(p) => TaskAction::<E, P>::Release(p),
                                None => TaskAction::Wait,
                            }
                        },
                        Err(QueueEntryError::Retry { entry, retry_after }) => {
                            &&& final(self).current == Some((permit, entry))
                            &&& r == TaskAction::<E, P>::SetTimer(retry_after)
                        },
                        Err(QueueEntryError::ChatInvalid) => {
                            &&& final(self).current is None
                            &&& r == (TaskAction::<E, P>::End { invalid: true, release: permit })
                        },
                    }
                },
            },
    {
        match event {
            TaskEvent::Disconnected => TaskAction::End { invalid: false, release: None },
            TaskEvent::Shutdown { hard } => {
                if hard {
                    TaskAction::End { invalid: false, release: None }
                } else {
                    self.soft_shutdown = true;
                    TaskAction::Wait
                }
            },
            TaskEvent::Entry(entry) => {
                let some = entry.is_some();
                self.current = entry;
                if some {
                    TaskAction::SetTimer(0)
                } else {
                    TaskAction::Wait
                }
            },
            TaskEvent::Timer => match self.current.take() {
                Some((permit, entry)) => TaskAction::Process(permit, entry),
                None => TaskAction::Wait,
            },
            TaskEvent::Processed(permit, result) => match result {
                Ok(_) => match permit {
                    Some(p) => TaskAction::Release(p),
                    None => TaskAction::Wait,
                },
                Err(QueueEntryError::Retry { entry, retry_after }) => {
                    self.current = Some((permit, entry));
                    TaskAction::SetTimer(retry_after)
                },
                Err(QueueEntryError::ChatInvalid) => {
                    TaskAction::End { invalid: true, release: permit }
                },
            },
        }
    }
}

/// What became of a message.
#[derive(Debug, Clone, Copy, PartialEq, Eq, Structural)]
pub enum SendResult {
    Sent,
    ChatInvalid,
    /// Another attempt may be made after so many seconds.
    RetryAfter(u32),
    Failed,
}

/// What a response says about a message. A chat that migrated counts as
/// invalid.
pub fn send_result(response: &Result<(), ClientError>) -> (r: SendResult)
    ensures
        r == match *response {
            Ok(_) => SendResult::Sent,
            Err(ClientError::Api(e)) => if crate::response::chat_gone(e) {
                SendResult::ChatInvalid
            } else {
                SendResult::Failed
            },
            Err(ClientError::MigrateToChatId(_)) => SendResult::ChatInvalid,
            Err(ClientError::RetryAfter(secs)) => SendResult::RetryAfter(secs),
            Err(ClientError::NoResponse) => SendResult::Failed,
        },
{
    match response {
        Ok(_) => SendResult::Sent,
        Err(ClientError::Api(e)) => {
            if is_chat_gone(e) {
                SendResult::ChatInvalid
            } else {
                SendResult::Failed
            }
        },
        Err(ClientError::MigrateToChatId(_)) => SendResult::ChatInvalid,
        Err(ClientError::RetryAfter(secs)) => SendResult::RetryAfter(*secs),
        Err(ClientError::NoResponse) => SendResult::Failed,
    }
}

/// What becomes of an entry after an attempt to send its message. A message
/// that could not be put back into the database is not retried.
pub fn entry_result<E>(entry: E, sent: SendResult, put_back: bool) -> (r: Result<
    (),
    QueueEntryError<E>,
>)
    ensures
        match sent {
            SendResult::Sent => r is Ok,
            SendResult::ChatInvalid => r == Err::<(), _>(QueueEntryError::<E>::ChatInvalid),
            SendResult::RetryAfter(secs) => if put_back {
                r == Err::<(), _>(
                    QueueEntryError::Retry { entry, retry_after: (secs * 1_000_000_000) as u64 },
                )
            } else {
                r is Ok
            },
            SendResult::Failed => if put_back {
                r == Err::<(), _>(QueueEntryError::Retry { entry, retry_after: RETRY_NANOS })
            } else {
                r is Ok
            },
        },
{
    match sent {
        SendResult::Sent => Ok(()),
        SendResult::ChatInvalid => Err(QueueEntryError::ChatInvalid),
        SendResult::RetryAfter(secs) => {
            if put_back {
                let retry_after: u64 = secs as u64 * 1_000_000_000;
                Err(QueueEntryError::Retry { entry, retry_after })
            } else {
                Ok(())
            }
        },
        SendResult::Failed => {
            if put_back {
                Err(QueueEntryError::Retry { entry, retry_after: RETRY_NANOS })
            } else {
                Ok(())
            }
        },
    }
}

/// Entries that go to the queue of one chat.
#[derive(Debug, PartialEq, Eq)]
pub struct Batch<E> {
    pub chat: ChatId,
    /// The chat has no task yet.
    pub create: bool,
    pub entries: Vec<E>,
}

/// What the dispatcher is told.
pub enum DispatcherMsg<E> {
    Enqueue(E),
    Shutdown { hard: bool },
    /// The task of a chat has ended.
    DropChatTask(ChatId),
    /// All entries that the database knows, and the chats whose tasks were
    /// found dead.
    CheckOrphaned { keys: Vec<E>, dead: Vec<ChatId> },
}

/// What the dispatcher does about a message.
#[derive(Debug, PartialEq, Eq)]
pub enum DispatcherAction<E> {
    /// Nothing.
    Ignore,
    /// Add the entries to the queues of their chats.
    Add(Vec<Batch<E>>),
    /// Tell all tasks to end.
    ShutdownAll { hard: bool },
}

/// The entries for one chat.
pub open spec fn for_chat<E: QueueEntry>(entries: Seq<E>, chat: ChatId) -> Seq<E> {
    entries.filter(|e: E| e.spec_chat() == chat)
}

/// There is a batch for the chat.
pub open spec fn has_batch<E>(batches: Seq<Batch<E>>, chat: ChatId) -> bool {
    exists|i: int| 0 <= i < batches.len() && (#[trigger] batches[i]).chat == chat
}

/// Each of the chats has one batch, which holds what there is for the chat.
pub open spec fn batched<E: QueueEntry>(
    entries: Seq<E>,
    live: Set<ChatId>,
    batches: Seq<Batch<E>>,
) -> bool {
    &&& forall|i: int, j: int|
        0 <= i < j < batches.len() ==> (#[trigger] batches[i]).chat != (#[trigger] batches[j]).chat
    &&& forall|i: int|
        0 <= i < batches.len() ==> {
            &&& (#[trigger] batches[i]).entries@ == for_chat(entries, batches[i].chat)
            &&& batches[i].entries@.len() > 0
            &&& batches[i].create == !live.contains(batches[i].chat)
        }
    &&& forall|k: int|
        0 <= k < entries.len() ==> has_batch(batches, (#[trigger] entries[k]).spec_chat())
}

/// The chats that entries are for.
pub open spec fn chats_of<E: QueueEntry>(entries: Seq<E>) -> Set<ChatId> {
    entries.map_values(|e: E| e.spec_chat()).to_set()
}

/// Which chats have a task.
pub struct DispatcherView {
    pub shutdown: bool,
    pub tasks: Set<ChatId>,
}

/// Hands entries to the tasks of their chats.
pub struct Dispatcher {
    shutdown: bool,
    tasks: HashMap<ChatId, ()>,
}

impl View for Dispatcher {
    type V = DispatcherView;

    closed spec fn view(&self) -> DispatcherView {
        DispatcherView { shutdown: self.shutdown, tasks: self.tasks@.dom() }
    }
}

/// One more entry in the list is one more entry for its chat.
proof fn lemma_for_chat_push<E: QueueEntry>(entries: Seq<E>, e: E, chat: ChatId)
    ensures
        for_chat(entries.push(e), chat) == (if e.spec_chat() == chat {
            for_chat(entries, chat).push(e)
        } else {
            for_chat(entries, chat)
        }),
{
    let p = |x: E| x.spec_chat() == chat;
    assert(entries.push(e).drop_last() =~= entries);
    reveal(Seq::filter);
}

/// The entries for a chat are those of the list that are for the chat.
proof fn lemma_for_chat_members<E: QueueEntry>(entries: Seq<E>, chat: ChatId, e: E)
    ensures
        for_chat(entries, chat).contains(e) <==> entries.contains(e) && e.spec_chat() == chat,
    decreases entries.len(),
{
    if entries.len() == 0 {
        reveal(Seq::filter);
        assert(for_chat(entries, chat) =~= Seq::empty());
    } else {
        let rest = entries.drop_last();
        let last = entries.last();
        assert(rest.push(last) =~= entries);
        lemma_for_chat_members(rest, chat, e);
        lemma_for_chat_push(rest, last, chat);
        let less = for_chat(rest, chat);
        if less.contains(e) {
            assert(less.push(last)[less.index_of(e)] == e);
        }
        if rest.contains(e) {
            assert(entries[rest.index_of(e)] == e);
        }
        if e == last {
            assert(entries[entries.len() - 1] == e);
            assert(less.push(last)[less.len() as int] == e);
        } else {
            if entries.contains(e) {
                assert(rest[entries.index_of(e)] == e);
            }
            if less.push(last).contains(e) {
                assert(less[less.push(last).index_of(e)] == e);
            }
        }
    }
}

/// A chat has entries if it is one of the chats that entries are for.
proof fn lemma_for_chat_nonempty<E: QueueEntry>(entries: Seq<E>, chat: ChatId) -> (k: int)
    requires
        for_chat(entries, chat).len() > 0,
    ensures
        0 <= k < entries.len(),
        entries[k].spec_chat() == chat,
{
    let e = for_chat(entries, chat)[0];
    lemma_for_chat_members(entries, chat, e);
    entries.index_of(e)
}

impl Dispatcher {
    /// Starts without tasks.
    pub fn new() -> (r: Self)
        ensures
            !r@.shutdown,
            r@.tasks == Set::<ChatId>::empty(),
    {
        let r = Dispatcher { shutdown: false, tasks: HashMap::new() };
        assert(r@.tasks =~= Set::<ChatId>::empty());
        r
    }

    /// Whether the dispatcher can end: it was told to, and no task is left.
    pub fn is_done(&self) -> (r: bool)
        ensures
            r == (self@.shutdown && self@.tasks == Set::<ChatId>::empty()),
    {
        let n: usize = self.tasks.len();
        proof {
            if n == 0 {
                assert(self@.tasks =~= Set::<ChatId>::empty());
            }
        }
        self.shutdown && n == 0
    }

    /// Puts an entry into the batch of its chat.
    fn batch<E: QueueEntry + Copy>(&self, batches: &mut Vec<Batch<E>>, entry: E, Ghost(
        entries,
    ): Ghost<Seq<E>>)
        requires
            batched(entries, self@.tasks, old(batches)@),
        ensures
            batched(entries.push(entry), self@.tasks, final(batches)@),
    {
        let chat: ChatId = entry.get_chat();
        let ghost before = batches@;
        let ghost all = entries.push(entry);
        let mut i: usize = 0;
        while i < batches.len() && batches[i].chat != chat
            invariant
                batches@ == before,
                i <= before.len(),
                forall|j: int| 0 <= j < i ==> (#[trigger] before[j]).chat != chat,
            decreases before.len() - i,
        {
            i = i + 1;
        }
        if i < batches.len() {
            let mut b = batches.swap_remove(i);
            b.entries.push(entry);
            batches.push(b);
            proof {
                let after = batches@;
                let n = before.len() as int;
                assert forall|j: int| 0 <= j < after.len() implies {
                    &&& (#[trigger] after[j]).entries@ == for_chat(all, after[j].chat)
                    &&& after[j].entries@.len() > 0
                    &&& after[j].create == !self@.tasks.contains(after[j].chat)
                } by {
                    lemma_for_chat_push(entries, entry, after[j].chat);
                    if j == n - 1 {
                        assert(before[i as int].chat == chat);
                    } else if j == i {
                        assert(after[j] == before[n - 1]);
                        assert(before[i as int].chat != before[n - 1].chat);
                    } else {
                        assert(after[j] == before[j]);
                        assert(j < i ==> before[j].chat != before[i as int].chat);
                        assert(j > i ==> before[i as int].chat != before[j].chat);
                    }
                }
                assert forall|a: int, c: int| 0 <= a < c < after.len() implies (
                #[trigger] after[a]).chat != (#[trigger] after[c]).chat by {
                    let a0 = if a == i {
                        n - 1
                    } else {
                        a
                    };
                    let c0 = if c == n - 1 {
                        i as int
                    } else if c == i {
                        n - 1
                    } else {
                        c
                    };
                    assert(after[a].chat == before[a0].chat);
                    assert(after[c].chat == before[c0].chat);
                    assert(a0 < c0 ==> before[a0].chat != before[c0].chat);
                    assert(c0 < a0 ==> before[c0].chat != before[a0].chat);
                }
                assert forall|k: int| 0 <= k < all.len() implies has_batch(
                    after,
                    (#[trigger] all[k]).spec_chat(),
                ) by {
                    if k == entries.len() {
                        assert(after[n - 1].chat == chat);
                    } else {
                        assert(all[k] == entries[k]);
                        assert(has_batch(before, entries[k].spec_chat()));
                        let j = choose|j: int|
                            0 <= j < before.len() && (#[trigger] before[j]).chat
                                == entries[k].spec_chat();
                        let j1 = if j == i {
                            n - 1
                        } else if j == n - 1 {
                            i as int
                        } else {
                            j
                        };
                        assert(after[j1].chat == before[j].chat);
                    }
                }
                assert(batched(all, self@.tasks, after));
            }
        } else {
            proof {
                if for_chat(entries, chat).len() > 0 {
                    let k = lemma_for_chat_nonempty(entries, chat);
                    assert(has_batch(before, entries[k].spec_chat()));
                    let j = choose|j: int|
                        0 <= j < before.len() && (#[trigger] before[j]).chat
                            == entries[k].spec_chat();
                    assert(before[j].chat != chat);
                }
            }
            let create = !self.tasks.contains_key(&chat);
            let entries_of_chat: Vec<E> = vec![entry];
            batches.push(Batch { chat, create, entries: entries_of_chat });
            proof {
                let after = batches@;
                let n = before.len() as int;
                assert forall|j: int| 0 <= j < after.len() implies {
                    &&& (#[trigger] after[j]).entries@ == for_chat(all, after[j].chat)
                    &&& after[j].entries@.len() > 0
                    &&& after[j].create == !self@.tasks.contains(after[j].chat)
                } by {
                    lemma_for_chat_push(entries, entry, after[j].chat);
                    if j < n {
                        assert(after[j] == before[j]);
                    } else {
                        assert(for_chat(entries, chat) =~= Seq::empty());
                        assert(after[j].entries@ =~= for_chat(all, chat));
                    }
                }
                assert forall|a: int, c: int| 0 <= a < c < after.len() implies (
                #[trigger] after[a]).chat != (#[trigger] after[c]).chat by {
                    if c < n {
                        assert(before[a].chat != before[c].chat);
                    } else {
                        assert(before[a].chat != chat);
                    }
                }
                assert forall|k: int| 0 <= k < all.len() implies has_batch(
                    after,
                    (#[trigger] all[k]).spec_chat(),
                ) by {
                    if k == entries.len() {
                        assert(after[n].chat == chat);
                    } else {
                        assert(all[k] == entries[k]);
                        assert(has_batch(before, entries[k].spec_chat()));
                        let j = choose|j: int|
                            0 <= j < before.len() && (#[trigger] before[j]).chat
                                == entries[k].spec_chat();
                        assert(after[j].chat == before[j].chat);
                    }
                }
                assert(batched(all, self@.tasks, after));
            }
        }
    }

    /// Takes up what the dispatcher is told.
    pub fn handle<E: QueueEntry + Copy>(&mut self, msg: DispatcherMsg<E>) -> (r: DispatcherAction<E>)
        ensures
            match msg {
                DispatcherMsg::Enqueue(entry) => {
                    &&& final(self)@.shutdown == old(self)@.shutdown
                    &&& if old(self)@.shutdown {
                        &&& r is Ignore
                        &&& final(self)@.tasks == old(self)@.tasks
                    } else {
                        &&& r matches DispatcherAction::Add(batches) && batched(
                            seq![entry],
                            old(self)@.tasks,
                            batches@,
                        )
                        &&& final(self)@.tasks == old(self)@.tasks.insert(entry.spec_chat())
                    }
                },
                DispatcherMsg::Shutdown { hard } => {
                    &&& final(self)@.shutdown
                    &&& final(self)@.tasks == old(self)@.tasks
                    &&& r == (DispatcherAction::<E>::ShutdownAll { hard })
                },
                DispatcherMsg::DropChatTask(chat) => {
                    &&& final(self)@.shutdown == old(self)@.shutdown
                    &&& final(self)@.tasks == old(self)@.tasks.remove(chat)
                    &&& r is Ignore
                },
                DispatcherMsg::CheckOrphaned { keys, dead } => {
                    let live = old(self)@.tasks.difference(dead@.to_set());
                    &&& final(self)@.shutdown == old(self)@.shutdown
                    &&& final(self)@.tasks == live.union(chats_of(keys@))
                    &&& r matches DispatcherAction::Add(batches) && batched(keys@, live, batches@)
                },
            },
    {
        match msg {
            DispatcherMsg::Enqueue(entry) => {
                if self.shutdown {
                    return DispatcherAction::Ignore;
                }
                let chat: ChatId = entry.get_chat();
                let mut batches: Vec<Batch<E>> = Vec::new();
                self.batch(&mut batches, entry, Ghost(Seq::empty()));
                assert(Seq::<E>::empty().push(entry) =~= seq![entry]);
                self.tasks.insert(chat, ());
                assert(self@.tasks =~= old(self)@.tasks.insert(chat));
                DispatcherAction::Add(batches)
            },
            DispatcherMsg::Shutdown { hard } => {
                self.shutdown = true;
                DispatcherAction::ShutdownAll { hard }
            },
            DispatcherMsg::DropChatTask(chat) => {
                self.tasks.remove(&chat);
                assert(self@.tasks =~= old(self)@.tasks.remove(chat));
                DispatcherAction::Ignore
            },
            DispatcherMsg::CheckOrphaned { keys, dead } => {
                let mut i: usize = 0;
                assert(dead@.take(0).to_set() =~= Set::<ChatId>::empty());
                assert(self@.tasks =~= old(self)@.tasks.difference(dead@.take(0).to_set()));
                while i < dead.len()
                    invariant
                        i <= dead@.len(),
                        self.shutdown == old(self).shutdown,
                        self@.tasks == old(self)@.tasks.difference(dead@.take(i as int).to_set()),
                    decreases dead@.len() - i,
                {
                    let ghost was = self@.tasks;
                    let chat: ChatId = dead[i];
                    self.tasks.remove(&chat);
                    proof {
                        let less = dead@.take(i as int);
                        let more = dead@.take(i + 1);
                        assert(more =~= less.push(chat));
                        assert(more.to_set() =~= less.to_set().insert(chat)) by {
                            broadcast use vstd::seq_lib::group_seq_properties;

                        }
                        assert(self@.tasks =~= was.remove(chat));
                        assert(self@.tasks =~= old(self)@.tasks.difference(more.to_set()));
                    }
                    i = i + 1;
                }
                assert(dead@.take(dead@.len() as int) =~= dead@);
                let ghost live = self@.tasks;
                let mut batches: Vec<Batch<E>> = Vec::new();
                let mut k: usize = 0;
                assert(keys@.take(0) =~= Seq::empty());
                while k < keys.len()
                    invariant
                        k <= keys@.len(),
                        self@.tasks == live,
                        self.shutdown == old(self).shutdown,
                        batched(keys@.take(k as int), live, batches@),
                    decreases keys@.len() - k,
                {
                    let entry = keys[k];
                    self.batch(&mut batches, entry, Ghost(keys@.take(k as int)));
                    assert(keys@.take(k as int).push(entry) =~= keys@.take(k + 1));
                    k = k + 1;
                }
                assert(keys@.take(keys@.len() as int) =~= keys@);
                let mut b: usize = 0;
                while b < batches.len()
                    invariant
                        b <= batches@.len(),
                        self.shutdown == old(self).shutdown,
                        forall|c: ChatId| #[trigger]
                            self@.tasks.contains(c) <==> live.contains(c) || exists|j: int|
                                0 <= j < b && (#[trigger] batches@[j]).chat == c,
                    decreases batches@.len() - b,
                {
                    let ghost was = self@.tasks;
                    let chat: ChatId = batches[b].chat;
                    self.tasks.insert(chat, ());
                    assert(self@.tasks =~= was.insert(chat));
                    assert forall|c: ChatId| #[trigger]
                        self@.tasks.contains(c) <==> live.contains(c) || exists|j: int|
                            0 <= j < b + 1 && (#[trigger] batches@[j]).chat == c by {
                        if self@.tasks.contains(c) && !live.contains(c) {
                            if c == chat {
                                assert(batches@[b as int].chat == c);
                            }
                        }
                    }
                    b = b + 1;
                }
                proof {
                    let chats = keys@.map_values(|e: E| e.spec_chat());
                    assert forall|c: ChatId| #[trigger]
                        self@.tasks.contains(c) <==> live.union(chats_of(keys@)).contains(c) by {
                        if chats_of(keys@).contains(c) {
                            let k = chats.index_of(c);
                            assert(keys@[k].spec_chat() == c);
                            assert(has_batch(batches@, keys@[k].spec_chat()));
                            let j = choose|j: int|
                                0 <= j < batches@.len() && (#[trigger] batches@[j]).chat
                                    == keys@[k].spec_chat();
                            assert(batches@[j].chat == c);
                        }
                        if exists|j: int| 0 <= j < batches@.len() && (#[trigger] batches@[j]).chat
                            == c {
                            let j = choose|j: int|
                                0 <= j < batches@.len() && (#[trigger] batches@[j]).chat == c;
                            let k = lemma_for_chat_nonempty(keys@, c);
                            assert(chats[k] == c);
                            assert(chats.contains(c));
                        }
                    }
                    assert(self@.tasks =~= live.union(chats_of(keys@)));
                }
                DispatcherAction::Add(batches)
            },
        }
    }
}

/// No two tasks ever work for the same chat: a batch asks for a task exactly if
/// the chat has none.
pub proof fn law_one_task_per_chat<E: QueueEntry>(
    entries: Seq<E>,
    live: Set<ChatId>,
    batches: Seq<Batch<E>>,
    i: int,
    j: int,
)
    requires
        batched(entries, live, batches),
        0 <= i < batches.len(),
        0 <= j < batches.len(),
        batches[i].chat == batches[j].chat,
    ensures
        i == j,
        batches[i].create <==> !live.contains(batches[i].chat),
{
    if i < j {
        assert(batches[i].chat != batches[j].chat);
    }
    if j < i {
        assert(batches[j].chat != batches[i].chat);
    }
}

/// No entry is lost or handed to a chat that it is not for.
pub proof fn law_entries_reach_their_chat<E: QueueEntry>(
    entries: Seq<E>,
    live: Set<ChatId>,
    batches: Seq<Batch<E>>,
    k: int,
)
    requires
        batched(entries, live, batches),
        0 <= k < entries.len(),
    ensures
        exists|i: int|
            #![trigger batches[i]]
            0 <= i < batches.len() && batches[i].chat == entries[k].spec_chat()
                && batches[i].entries@.contains(entries[k]),
        forall|i: int|
            0 <= i < batches.len() && (#[trigger] batches[i]).entries@.contains(entries[k])
                ==> batches[i].chat == entries[k].spec_chat(),
{
    assert(has_batch(batches, entries[k].spec_chat()));
    let i = choose|i: int|
        0 <= i < batches.len() && (#[trigger] batches[i]).chat == entries[k].spec_chat();
    lemma_for_chat_members(entries, batches[i].chat, entries[k]);
    assert forall|i: int|
        0 <= i < batches.len() && (#[trigger] batches[i]).entries@.contains(
            entries[k],
        ) implies batches[i].chat == entries[k].spec_chat() by {
        lemma_for_chat_members(entries, batches[i].chat, entries[k]);
    }
}

/// Messages wait by priority, messages of the same priority in the order of
/// their keys. Those of the first priority are the replies.
pub proof fn law_messages_wait_by_priority(
    a: &ScheduledMessageKey,
    b: &ScheduledMessageKey,
    first: bool,
    reply: bool,
    chat: ChatId,
)
    requires
        call_ensures(ScheduledMessageKey::is_before, (a, b), first),
        call_ensures(ScheduledMessageKey::is_reply, (a,), reply),
        call_ensures(ScheduledMessageKey::get_chat, (a,), chat),
    ensures
        a.priority < b.priority ==> first,
        a.priority > b.priority ==> !first,
        a.priority == b.priority && a.key < b.key ==> first,
        a.priority == b.priority && a.key > b.key ==> !first,
        *a == *b ==> !first,
        reply <==> a.priority == 1,
        chat == a.chat_id,
{
}

/// An entry that is added waits, once, with all that waited before, and what
/// comes out next is the first of them all.
pub proof fn law_first_entry_comes_out<E: QueueEntry>(
    q: &mut Queue<E>,
    item: E,
    added: bool,
    q2: &mut Queue<E>,
    r: Option<E>,
    other: E,
)
    requires
        q.wf(),
        call_ensures(Queue::<E>::add_item, (q, item), added),
        *q2 == *final(q),
        call_ensures(Queue::<E>::take_next, (q2, false), r),
    ensures
        added <==> !old(q)@.contains(item),
        final(q)@.contains(other) <==> old(q)@.contains(other) || other == item,
        r is Some,
        final(q)@.contains(r->0),
        final(q)@.contains(other) ==> other == r->0 || r->0.before(&other),
        final(q2)@.contains(other) <==> final(q)@.contains(other) && other != r->0,
        final(q2).spec_invalidated() == old(q).spec_invalidated(),
{
    let before = old(q)@;
    let middle = final(q)@;
    let after = final(q2)@;
    assert(middle.to_set().contains(other) == before.to_set().insert(item).contains(other));
    assert(middle.to_set().contains(item));
    assert(middle.contains(item));
    assert(middle.len() > 0);
    assert(middle.contains(middle[0]));
    if middle.contains(other) {
        let k = middle.index_of(other);
        if k > 0 {
            assert(middle[0].before(&middle[k]));
            assert(after[k - 1] == other);
            middle[0].irreflexive();
        }
    }
    if after.contains(other) {
        let k = after.index_of(other);
        assert(middle[k + 1] == other);
        assert(middle[0].before(&middle[k + 1]));
        middle[0].irreflexive();
    }
}

/// Adding several entries adds each of them, and the number tells how many are
/// new.
pub proof fn law_all_entries_are_added<E: QueueEntry>(
    q: &mut Queue<E>,
    items: Vec<E>,
    added: usize,
    other: E,
)
    requires
        q.wf(),
        call_ensures(Queue::<E>::add_items, (q, items), added),
    ensures
        final(q).wf(),
        final(q)@.contains(other) <==> old(q)@.contains(other) || items@.contains(other),
        final(q)@.len() == old(q)@.len() + added,
        final(q).spec_invalidated() == old(q).spec_invalidated(),
{
    assert(final(q)@.to_set().contains(other) == old(q)@.to_set().union(
        items@.to_set(),
    ).contains(other));
}

/// Where only replies are wanted, the first entry is taken out exactly if it is
/// one. Nothing else is passed over or lost.
pub proof fn law_broadcasts_are_left_for_later<E: QueueEntry>(
    q: &mut Queue<E>,
    r: Option<E>,
    reply: bool,
)
    requires
        q.wf(),
        q@.len() > 0,
        call_ensures(E::is_reply, (&q@[0],), reply),
        call_ensures(Queue::<E>::take_next, (q, true), r),
    ensures
        reply ==> r is Some && old(q)@ == seq![r->0] + final(q)@,
        !reply ==> r is None && final(q)@ == old(q)@,
{
    if reply {
        assert(old(q)@ =~= seq![old(q)@[0]] + old(q)@.skip(1));
    }
}

/// A queue is empty exactly if nothing waits, as it is at the start, and stays
/// invalid once it is.
pub proof fn law_empty_queue<E: QueueEntry>(
    new: Queue<E>,
    empty: bool,
    q: &mut Queue<E>,
    nothing: Option<E>,
    invalid: &mut Queue<E>,
    seen: bool,
    after: Queue<E>,
)
    requires
        call_ensures(Queue::<E>::new, (), new),
        q.wf(),
        call_ensures(Queue::<E>::is_empty, (&*q,), empty),
        call_ensures(Queue::<E>::take_next, (q, false), nothing),
        call_ensures(Queue::<E>::invalidate, (invalid,), ()),
        after == *final(invalid),
        call_ensures(Queue::<E>::invalidated, (&after,), seen),
    ensures
        new@.len() == 0,
        empty <==> nothing is None,
        seen,
        after@ == old(invalid)@,
{
}

/// A reply goes out at once, without a permit. A broadcast goes out with the
/// permit that comes, and replies that come before go out first.
pub proof fn law_replies_go_out_first<E: QueueEntry, P>(
    entry: E,
    reply: bool,
    first: (StreamState<E>, Option<(Option<P>, E)>),
    answer: E,
    second: (StreamState<E>, Option<(Option<P>, E)>),
    permit: P,
    third: (StreamState<E>, Option<(Option<P>, E)>),
)
    requires
        call_ensures(E::is_reply, (&entry,), reply),
        call_ensures(
            next_in_stream::<E, P>,
            (StreamState::Entry, StreamEvent::Entry(entry)),
            first,
        ),
        !reply ==> call_ensures(
            next_in_stream::<E, P>,
            (first.0, StreamEvent::Reply(answer)),
            second,
        ),
        !reply ==> call_ensures(
            next_in_stream::<E, P>,
            (second.0, StreamEvent::Permit(permit)),
            third,
        ),
    ensures
        reply ==> first == (StreamState::<E>::Entry, Some((None::<P>, entry))),
        !reply ==> first.1 is None,
        !reply ==> second.1 == Some((None::<P>, answer)),
        !reply ==> third == (StreamState::<E>::Entry, Some((Some(permit), entry))),
{
}

/// An entry is processed with its permit, and again, with the same permit, if
/// that is asked for, after the time that is asked for. Once it was sent, the
/// permit is given back.
pub proof fn law_entries_are_processed<E, P>(
    t: (
        &mut ChatTask<E, P>,
        &mut ChatTask<E, P>,
        &mut ChatTask<E, P>,
        &mut ChatTask<E, P>,
        &mut ChatTask<E, P>,
    ),
    permit: P,
    entry: E,
    retry_after: u64,
    r: (
        TaskAction<E, P>,
        TaskAction<E, P>,
        TaskAction<E, P>,
        TaskAction<E, P>,
        TaskAction<E, P>,
    ),
)
    requires
        t.0.current is None,
        call_ensures(
            ChatTask::<E, P>::handle,
            (t.0, TaskEvent::Entry(Some((Some(permit), entry)))),
            r.0,
        ),
        *t.1 == *final(t.0),
        call_ensures(ChatTask::<E, P>::handle, (t.1, TaskEvent::Timer), r.1),
        *t.2 == *final(t.1),
        call_ensures(
            ChatTask::<E, P>::handle,
            (
                t.2,
                TaskEvent::Processed(
                    Some(permit),
                    Err(QueueEntryError::Retry { entry, retry_after }),
                ),
            ),
            r.2,
        ),
        *t.3 == *final(t.2),
        call_ensures(ChatTask::<E, P>::handle, (t.3, TaskEvent::Timer), r.3),
        *t.4 == *final(t.3),
        call_ensures(
            ChatTask::<E, P>::handle,
            (t.4, TaskEvent::Processed(Some(permit), Ok(()))),
            r.4,
        ),
    ensures
        r.0 == TaskAction::<E, P>::SetTimer(0),
        r.1 == TaskAction::Process(Some(permit), entry),
        r.2 == TaskAction::<E, P>::SetTimer(retry_after),
        r.3 == TaskAction::Process(Some(permit), entry),
        r.4 == TaskAction::<E, P>::Release(permit),
{
}

/// A task ends at once if it is told to, if nobody can tell it anything, or if
/// its chat is invalid, and in the last case gives its permit back. Otherwise it
/// ends when it was asked to and nothing is left to do.
pub proof fn law_tasks_end<E, P>(
    t: &mut ChatTask<E, P>,
    event: TaskEvent<E, P>,
    r: TaskAction<E, P>,
    after: ChatTask<E, P>,
    empty: bool,
    done: bool,
)
    requires
        event is Entry ==> t.current is None,
        event is Timer ==> t.current is Some,
        event is Processed ==> t.current is None,
        call_ensures(ChatTask::<E, P>::handle, (t, event), r),
        after == *final(t),
        call_ensures(ChatTask::<E, P>::is_done, (&after, empty), done),
    ensures
        r is End <==> (event is Disconnected || (event matches TaskEvent::Shutdown { hard } && hard)
            || (event matches TaskEvent::Processed(_, Err(e)) && e is ChatInvalid)),
        r matches TaskAction::End { invalid, release } ==> (invalid <==> event is Processed) && (
        event matches TaskEvent::Processed(permit, _) ==> release == permit) && (
        !(event is Processed) ==> release is None),
        event matches TaskEvent::Shutdown { hard } ==> (!hard ==> final(t).soft_shutdown && r is Wait),
        !(event is Shutdown) ==> final(t).soft_shutdown == old(t).soft_shutdown,
        done <==> after.soft_shutdown && after.current is None && empty,
{
}

/// A chat that is gone or has moved is invalid. A message that has to wait waits
/// as long as is asked for, and any other failure five seconds. What cannot be
/// put back is given up.
pub proof fn law_failed_messages_wait<E>(
    response: &Result<(), ClientError>,
    sent: SendResult,
    gone: bool,
    entry: E,
    put_back: bool,
    r: Result<(), QueueEntryError<E>>,
)
    requires
        call_ensures(send_result, (response,), sent),
        *response matches Err(ClientError::Api(e)) ==> call_ensures(is_chat_gone, (&e,), gone),
        call_ensures(entry_result::<E>, (entry, sent, put_back), r),
    ensures
        *response is Ok ==> r is Ok,
        *response matches Err(ClientError::MigrateToChatId(_)) ==> (r matches Err(
            QueueEntryError::ChatInvalid,
        )),
        (*response matches Err(ClientError::Api(_))) && gone ==> (r matches Err(
            QueueEntryError::ChatInvalid,
        )),
        (*response matches Err(ClientError::Api(_))) && !gone && put_back ==> r == Err::<(), _>(
            QueueEntryError::Retry { entry, retry_after: 5_000_000_000 },
        ),
        (*response matches Err(ClientError::NoResponse)) && put_back ==> r == Err::<(), _>(
            QueueEntryError::Retry { entry, retry_after: 5_000_000_000 },
        ),
        *response matches Err(ClientError::RetryAfter(secs)) ==> (put_back ==> (r matches Err(
            QueueEntryError::Retry { entry: e, retry_after },
        ) && e == entry && retry_after == secs * 1_000_000_000)),
        !put_back ==> !(r matches Err(QueueEntryError::Retry { .. })),
{
}

/// An entry goes to the queue of its own chat, alone, and a task is created
/// exactly if the chat has none. Afterwards it has one.
pub proof fn law_entry_goes_to_its_chat<E: QueueEntry + Copy>(
    d: &mut Dispatcher,
    entry: E,
    chat: ChatId,
    r: DispatcherAction<E>,
    other: ChatId,
)
    requires
        !d@.shutdown,
        call_ensures(E::get_chat, (&entry,), chat),
        call_ensures(Dispatcher::handle::<E>, (d, DispatcherMsg::Enqueue(entry)), r),
    ensures
        r matches DispatcherAction::Add(batches) && {
            &&& batches@.len() == 1
            &&& batches@[0].chat == chat
            &&& batches@[0].entries@ == seq![entry]
            &&& batches@[0].create <==> !old(d)@.tasks.contains(chat)
        },
        final(d)@.tasks.contains(chat),
        other != chat ==> (final(d)@.tasks.contains(other) <==> old(d)@.tasks.contains(other)),
        !final(d)@.shutdown,
{
    if let DispatcherAction::Add(batches) = r {
        let entries = seq![entry];
        let b = batches@;
        assert(entries[0].spec_chat() == chat);
        assert(has_batch(b, entries[0].spec_chat()));
        let i = choose|i: int| 0 <= i < b.len() && (#[trigger] b[i]).chat == chat;
        assert forall|j: int| 0 <= j < b.len() implies (#[trigger] b[j]).chat == chat by {
            let k = lemma_for_chat_nonempty(entries, b[j].chat);
        }
        if b.len() > 1 {
            assert(b[0].chat == chat);
            assert(b[1].chat == chat);
        }
        assert(b[0].chat == chat);
        lemma_for_chat_push(Seq::<E>::empty(), entry, chat);
        assert(Seq::<E>::empty().push(entry) =~= entries);
        reveal(Seq::filter);
        assert(for_chat(Seq::<E>::empty(), chat) =~= Seq::<E>::empty());
        assert(b[0].entries@ =~= seq![entry]);
    }
}

/// Once it was told to end, the dispatcher tells all tasks, takes in nothing
/// more, and ends when the last task has ended.
pub proof fn law_dispatcher_ends<E: QueueEntry + Copy>(
    d: &mut Dispatcher,
    hard: bool,
    r: DispatcherAction<E>,
    d2: &mut Dispatcher,
    entry: E,
    late: DispatcherAction<E>,
    d3: &mut Dispatcher,
    chat: ChatId,
    dropped: DispatcherAction<E>,
    after: Dispatcher,
    done: bool,
)
    requires
        call_ensures(Dispatcher::handle::<E>, (d, DispatcherMsg::Shutdown { hard }), r),
        *d2 == *final(d),
        call_ensures(Dispatcher::handle::<E>, (d2, DispatcherMsg::Enqueue(entry)), late),
        *d3 == *final(d2),
        call_ensures(Dispatcher::handle::<E>, (d3, DispatcherMsg::DropChatTask(chat)), dropped),
        after == *final(d3),
        call_ensures(Dispatcher::is_done, (&after,), done),
    ensures
        r == (DispatcherAction::<E>::ShutdownAll { hard }),
        late is Ignore,
        dropped is Ignore,
        after@.tasks == old(d)@.tasks.remove(chat),
        done <==> forall|c: ChatId| #[trigger] old(d)@.tasks.contains(c) ==> c == chat,
{
    if forall|c: ChatId| #[trigger] old(d)@.tasks.contains(c) ==> c == chat {
        assert(old(d)@.tasks.remove(chat) =~= Set::<ChatId>::empty());
    }
    if done {
        assert forall|c: ChatId| #[trigger] old(d)@.tasks.contains(c) implies c == chat by {
            assert(old(d)@.tasks.remove(chat).contains(c) <==> old(d)@.tasks.contains(c) && c
                != chat);
        }
    }
}

/// All entries that the database knows reach the queues of their chats, and no
/// other. Chats whose tasks were found dead get a new one.
pub proof fn law_orphans_are_taken_up<E: QueueEntry + Copy>(
    d: &mut Dispatcher,
    keys: Vec<E>,
    dead: Vec<ChatId>,
    r: DispatcherAction<E>,
    k: int,
    chat: ChatId,
    other: E,
)
    requires
        call_ensures(
            Dispatcher::handle::<E>,
            (d, DispatcherMsg::CheckOrphaned { keys, dead }),
            r,
        ),
        0 <= k < keys@.len(),
        call_ensures(E::get_chat, (&keys@[k],), chat),
    ensures
        r matches DispatcherAction::Add(batches) && {
            &&& exists|i: int|
                #![trigger batches@[i]]
                0 <= i < batches@.len() && batches@[i].chat == chat
                    && batches@[i].entries@.contains(keys@[k])
            &&& forall|i: int|
                0 <= i < batches@.len() && (#[trigger] batches@[i]).entries@.contains(keys@[k])
                    ==> batches@[i].chat == chat
            &&& forall|i: int|
                0 <= i < batches@.len() && (#[trigger] batches@[i]).chat == chat ==> (
                batches@[i].create <==> !old(d)@.tasks.contains(chat) || dead@.contains(chat))
            &&& forall|i: int|
                0 <= i < batches@.len() ==> ((#[trigger] batches@[i]).entries@.contains(other)
                    <==> keys@.contains(other) && other.spec_chat() == batches@[i].chat)
            &&& forall|i: int, j: int|
                0 <= i < j < batches@.len() ==> (#[trigger] batches@[i]).chat != (
                #[trigger] batches@[j]).chat
        },
        final(d)@.tasks.contains(chat),
        final(d)@.shutdown == old(d)@.shutdown,
{
    if let DispatcherAction::Add(batches) = r {
        let live = old(d)@.tasks.difference(dead@.to_set());
        law_entries_reach_their_chat(keys@, live, batches@, k);
        assert(live.contains(chat) <==> old(d)@.tasks.contains(chat) && !dead@.contains(chat));
        let chats = keys@.map_values(|e: E| e.spec_chat());
        assert(chats[k] == chat);
        assert(chats.contains(chat));
        assert(chats_of(keys@).contains(chat));
        assert forall|i: int| 0 <= i < batches@.len() implies ((
        #[trigger] batches@[i]).entries@.contains(other) <==> keys@.contains(other)
            && other.spec_chat() == batches@[i].chat) by {
            lemma_for_chat_members(keys@, batches@[i].chat, other);
        }
    }
}

/// Messages of a chat are three seconds apart.
pub proof fn law_messages_keep_their_distance(ms: u64)
    requires
        call_ensures(message_interval_millis, (), ms),
    ensures
        ms == 3000,
{
}

/// Without an entry there is nothing to do, and without a permit nothing to give
/// back.
pub proof fn law_nothing_to_do<E, P>(
    t: &mut ChatTask<E, P>,
    r: TaskAction<E, P>,
    u: &mut ChatTask<E, P>,
    done: TaskAction<E, P>,
    new: ChatTask<E, P>,
)
    requires
        t.current is None,
        call_ensures(ChatTask::<E, P>::handle, (t, TaskEvent::Entry(None)), r),
        u.current is None,
        call_ensures(ChatTask::<E, P>::handle, (u, TaskEvent::Processed(None, Ok(()))), done),
        call_ensures(ChatTask::<E, P>::new, (), new),
    ensures
        r is Wait && final(t).current is None,
        done is Wait && final(u).current is None,
        new.current is None && !new.soft_shutdown,
{
}

} // verus!
