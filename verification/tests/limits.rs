use allrisbot::outgoing::{
    entry_result, message_interval_millis, next_in_stream, send_result, Batch, ChatTask,
    Dispatcher, DispatcherAction, DispatcherMsg, Queue, QueueEntry, QueueEntryError,
    ScheduledMessageKey, SendResult, StreamEvent, StreamState, TaskAction, TaskEvent,
};
use allrisbot::rate_limiter::{ChatLimiter, SlidingWindowRateLimiter};
use allrisbot::response::{ApiError, ClientError};
use allrisbot::updates::{chat_of, Poll, PollRequest, Sequencer, UpdateKind};

#[test]
fn a_window_slides() {
    let mut l = SlidingWindowRateLimiter::new(10, 2);
    assert!(l.can_send(0));
    l.register_send(0);
    l.register_send(5);
    assert!(!l.can_send(7));
    assert_eq!(l.wait_until(7), Some(10));
    assert_eq!(l.wait_for_oldest(7), Some(10));
    // a request still counts when exactly the period has passed
    assert!(!l.can_send(10));
    assert!(l.can_send(11));
    assert_eq!(l.wait_until(11), None);
    l.register_send(11);
    l.register_send(11);
    assert_eq!(l.wait_until(11), Some(21));
    assert_eq!(l.wait_for_oldest(11), Some(15));
}

#[test]
fn chats_have_two_limits() {
    let second = 1_000_000_000;
    let mut l = ChatLimiter::new();
    for i in 0..20 {
        let now = i * (second + 1);
        assert_eq!(l.wait_until(now), None);
        l.register_send(now);
        if i < 19 {
            assert_eq!(l.wait_until(now), Some(now + second));
        }
    }
    let now = 20 * (second + 1);
    assert_eq!(l.wait_until(now), Some(60 * second));
    assert_eq!(l.wait_until(61 * second), None);
}

fn key(priority: u64, key: u64, chat_id: i64) -> ScheduledMessageKey {
    ScheduledMessageKey { priority, key, chat_id }
}

#[test]
fn queues_are_ordered() {
    let mut q = Queue::new();
    assert!(q.is_empty());
    let entries = vec![key(2, 1, 7), key(1, 5, 7), key(1, 3, 7)];
    assert_eq!(q.add_items(entries), 3);
    assert!(!q.add_item(key(1, 3, 7)));
    let mut previous: Option<ScheduledMessageKey> = None;
    for _ in 0..3 {
        let next = q.take_next(false).unwrap();
        if let Some(previous) = previous {
            assert!(previous.is_before(&next));
        }
        previous = Some(next);
    }
    assert!(q.take_next(false).is_none());
    assert!(!q.invalidated());
    q.invalidate();
    assert!(q.invalidated());
}

#[test]
fn replies_do_not_wait() {
    let (reply, broadcast) = (key(1, 5, 7), key(2, 3, 7));
    assert!(reply.is_reply());
    assert!(!broadcast.is_reply());
    assert_eq!(reply.get_chat(), 7);

    let mut q = Queue::new();
    q.add_item(broadcast);
    assert!(q.take_next(true).is_none());
    q.add_item(reply);
    assert!(q.take_next(true) == Some(reply));

    let (state, out) = next_in_stream::<_, u8>(StreamState::Entry, StreamEvent::Entry(reply));
    assert!(matches!(state, StreamState::Entry));
    assert!(out == Some((None, reply)));
    let (state, out) = next_in_stream::<_, u8>(StreamState::Entry, StreamEvent::Entry(broadcast));
    assert!(out.is_none());
    let (state, out) = next_in_stream::<_, u8>(state, StreamEvent::Reply(reply));
    assert!(out == Some((None, reply)));
    let (state, out) = next_in_stream(state, StreamEvent::Permit(9u8));
    assert!(matches!(state, StreamState::Entry));
    assert!(out == Some((Some(9), broadcast)));
}

#[test]
fn tasks_of_chats() {
    let mut t: ChatTask<u8, char> = ChatTask::new();
    assert_eq!(t.handle(TaskEvent::Entry(Some((Some('p'), 1)))), TaskAction::SetTimer(0));
    assert_eq!(t.handle(TaskEvent::Shutdown { hard: false }), TaskAction::Wait);
    assert!(!t.is_done(true));
    assert_eq!(t.handle(TaskEvent::Timer), TaskAction::Process(Some('p'), 1));
    let again = Err(QueueEntryError::Retry { entry: 1, retry_after: 5 });
    assert_eq!(t.handle(TaskEvent::Processed(Some('p'), again)), TaskAction::SetTimer(5));
    assert_eq!(t.handle(TaskEvent::Timer), TaskAction::Process(Some('p'), 1));
    assert_eq!(t.handle(TaskEvent::Processed(Some('p'), Ok(()))), TaskAction::Release('p'));
    assert!(t.is_done(true));
    assert!(!t.is_done(false));
    assert_eq!(
        t.handle(TaskEvent::Processed(None, Err(QueueEntryError::ChatInvalid))),
        TaskAction::End { invalid: true, release: None }
    );
    assert_eq!(
        t.handle(TaskEvent::Disconnected),
        TaskAction::End { invalid: false, release: None }
    );
}

#[test]
fn results_of_entries() {
    assert!(matches!(send_result(&Ok(())), SendResult::Sent));
    assert!(matches!(
        send_result(&Err(ClientError::Api(ApiError::BotBlocked))),
        SendResult::ChatInvalid
    ));
    assert!(matches!(send_result(&Err(ClientError::MigrateToChatId(1))), SendResult::ChatInvalid));
    assert!(matches!(send_result(&Err(ClientError::NoResponse)), SendResult::Failed));
    assert!(entry_result(1, SendResult::Sent, false).is_ok());
    assert!(matches!(
        entry_result(1, SendResult::RetryAfter(2), true),
        Err(QueueEntryError::Retry { entry: 1, retry_after: 2_000_000_000 })
    ));
    assert!(matches!(
        entry_result(1, SendResult::Failed, true),
        Err(QueueEntryError::Retry { entry: 1, retry_after: 5_000_000_000 })
    ));
    assert!(entry_result(1, SendResult::Failed, false).is_ok());
    assert_eq!(message_interval_millis(), 3000);
}

#[test]
fn a_chat_has_one_task() {
    let mut d = Dispatcher::new();
    let DispatcherAction::Add(batches) = d.handle(DispatcherMsg::Enqueue(key(1, 1, 7))) else {
        panic!("expected a batch")
    };
    let [Batch { chat: 7, create: true, entries }] = batches.as_slice() else {
        panic!("expected a new task")
    };
    assert!(entries.as_slice() == [key(1, 1, 7)]);
    let DispatcherAction::Add(batches) = d.handle(DispatcherMsg::Enqueue(key(1, 2, 7))) else {
        panic!("expected a batch")
    };
    assert!(matches!(batches.as_slice(), [Batch { chat: 7, create: false, .. }]));
    assert!(!d.is_done());
    assert!(matches!(
        d.handle::<ScheduledMessageKey>(DispatcherMsg::Shutdown { hard: false }),
        DispatcherAction::ShutdownAll { hard: false }
    ));
    d.handle::<ScheduledMessageKey>(DispatcherMsg::DropChatTask(7));
    assert!(d.is_done());
}

#[test]
fn updates_of_a_chat_wait_for_each_other() {
    let mut s = Sequencer::new();
    assert_eq!(s.on_update(1, 'a'), Some('a'));
    assert_eq!(s.on_update(1, 'b'), None);
    assert_eq!(s.on_update(1, 'c'), None);
    assert_eq!(s.on_update(2, 'x'), Some('x'));
    assert_eq!(s.on_finished(1), Some('b'));
    assert_eq!(s.on_finished(1), Some('c'));
    assert_eq!(s.on_finished(1), None);
    assert!(!s.is_idle());
    assert_eq!(s.on_finished(2), None);
    assert!(s.is_idle());
    assert_eq!(s.on_update(1, 'd'), Some('d'));
    assert!(!s.is_idle());
    assert_eq!(chat_of(UpdateKind::Message { chat: 4 }), Some(4));
    assert_eq!(chat_of(UpdateKind::CallbackQuery { message_chat: None }), None);
    assert_eq!(chat_of(UpdateKind::Unsupported), None);
}

#[test]
fn updates_are_polled() {
    let mut p = Poll::new();
    assert_eq!(p.request(), PollRequest { offset: None, timeout_secs: 30, limit: None });
    assert_eq!(p.closing_request(), None);
    p.on_updates(&vec![5, 8]);
    assert_eq!(p.request().offset, Some(9));
    assert_eq!(
        p.closing_request(),
        Some(PollRequest { offset: Some(9), timeout_secs: 0, limit: Some(1) })
    );
    p.on_updates(&vec![]);
    assert_eq!(p.request().offset, Some(9));
    assert_eq!(p.closing_request(), None);
}
