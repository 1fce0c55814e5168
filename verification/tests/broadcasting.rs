use allrisbot::broadcasting::{
    delay, next_to_send, on_chat_state, on_checked_filters, on_entry, on_filters,
    on_sender_reply, on_skip_acknowledged, on_skipped, route_update, BroadcastEvent,
    BroadcastLoop, BroadcastManager, LoopControl, NextUpdate, Route, Search, ShutdownSignal,
    UpdateFeed,
};
use allrisbot::database::{ChatState, StreamId};
use allrisbot::delivery::ChatStatus;
use allrisbot::types::{Condition, Filter, Message, Tag};

#[test]
fn updates_are_routed() {
    type N = NextUpdate<u64, &'static str>;
    assert_eq!(route_update(N::Ready { id: 1, msg: "m" }), Route::Send { update: 1, message: "m" });
    assert_eq!(route_update(N::Skipped { id: 1 }), Route::Done(ChatStatus::Processed(1)));
    assert_eq!(route_update(N::OutOfSync), Route::Done(ChatStatus::OutOfSync));
    assert_eq!(route_update(N::Pending { previous: 1 }), Route::Done(ChatStatus::Processed(1)));
    assert_eq!(route_update(N::Migrated { to: 2 }), Route::Done(ChatStatus::MigratedTo(2)));
    assert_eq!(route_update(N::Stopped), Route::Done(ChatStatus::Stopped));
}

#[test]
fn chats_are_left_alone_after_a_message() {
    assert_eq!(delay(-1), 3);
    assert_eq!(delay(1), 1);
    let ok = || Ok::<_, ()>(ChatStatus::Processed(1u64));
    assert_eq!(on_sender_reply(-1, Some((ok(), true))), (ok(), Some(3)));
    assert_eq!(on_sender_reply(1, Some((ok(), false))), (ok(), None));
    assert_eq!(on_sender_reply::<u64, ()>(1, None), (Ok(ChatStatus::ShuttingDown), None));
    assert_eq!(next_to_send(false, Some(1)), Some(1));
    assert_eq!(next_to_send(true, Some(1)), None);
}

fn message() -> Message {
    Message { text: "t".to_owned(), buttons: vec![], tags: vec![(Tag::Art, "Antrag".to_owned())] }
}

fn filter(pattern: &str) -> Vec<Filter> {
    vec![Filter {
        conditions: vec![Condition { tag: Tag::Art, pattern: pattern.to_owned(), negate: false }],
    }]
}

#[test]
fn the_next_update_is_looked_for() {
    let (old, id) = (StreamId(1, 0), StreamId(2, 0));
    assert!(matches!(
        on_chat_state::<u8>(ChatState::Active { last_sent: old }),
        Search::EntryAfter(x) if x == old
    ));
    assert!(matches!(
        on_chat_state::<u8>(ChatState::Migrated { to: 3 }),
        Search::Found(NextUpdate::Migrated { to: 3 })
    ));
    assert!(matches!(on_chat_state::<u8>(ChatState::Stopped), Search::Found(NextUpdate::Stopped)));
    assert!(matches!(
        on_entry::<u8>(old, None),
        Search::Found(NextUpdate::Pending { previous }) if previous == old
    ));
    assert!(matches!(on_entry(old, Some((id, 5u8))), Search::Filters { msg: 5, .. }));
    assert!(matches!(
        on_filters(id, message(), &filter("Antrag")),
        Search::Found(NextUpdate::Ready { .. })
    ));
    assert!(matches!(on_filters(id, message(), &filter("Anfrage")), Search::Skip { .. }));
    assert!(matches!(on_filters(id, message(), &vec![]), Search::Skip { .. }));
    assert!(matches!(
        on_checked_filters(id, message(), &filter("Antrag")),
        Some(Search::Found(NextUpdate::Ready { .. }))
    ));
    assert!(on_checked_filters(id, message(), &filter("(")).is_none());
    assert!(matches!(on_skipped::<u8>(id), NextUpdate::Skipped { .. }));
    assert!(matches!(on_skip_acknowledged::<u8>(id, true), NextUpdate::Skipped { .. }));
    assert!(matches!(on_skip_acknowledged::<u8>(id, false), NextUpdate::OutOfSync));
}

#[test]
fn the_look_out_remembers() {
    let mut feed: UpdateFeed<u64> = UpdateFeed::new();
    assert_eq!((feed.query().after, feed.query().pause_secs), (None, 0));
    assert_eq!(feed.on_result(Some((4, vec![1]))), Some((4, vec![1])));
    assert_eq!((feed.query().after, feed.query().pause_secs), (Some(4), 0));
    assert_eq!(feed.on_result(None), None);
    assert_eq!((feed.query().after, feed.query().pause_secs), (Some(4), 20));
    // nothing is lost by a failed look
    assert_eq!(feed.on_result(Some((5, vec![]))), Some((5, vec![])));
    assert_eq!((feed.query().after, feed.query().pause_secs), (Some(5), 0));
}

#[test]
fn a_chat_is_processed_once_at_a_time() {
    let mut m: BroadcastManager<u64> = BroadcastManager::new();
    assert!(m.is_idle());
    assert_eq!(m.on_message_scheduled(1, vec![10, 20]), vec![10, 20]);
    assert_eq!(m.on_message_scheduled(2, vec![10, 30]), vec![30]);
    assert!(!m.is_idle());
    // triggered meanwhile
    let done = |id| Ok::<_, ()>(ChatStatus::Processed(id));
    assert_eq!(m.on_processing_finished(10, done(1)), Some(10));
    assert_eq!(m.on_processing_finished(10, done(2)), None);
    // there is a newer update
    assert_eq!(m.on_processing_finished(20, done(1)), Some(20));
    assert_eq!(m.on_processing_finished(20, done(2)), None);
    // the chat moved
    assert_eq!(m.on_processing_finished::<()>(30, Ok(ChatStatus::MigratedTo(40))), Some(40));
    assert_eq!(m.on_processing_finished::<()>(40, Ok(ChatStatus::Stopped)), None);
    assert!(m.is_idle());
    assert!(m.trigger_chat(5));
    assert!(!m.trigger_chat(5));
}

#[test]
fn shutdowns() {
    type E = BroadcastEvent<u64, ()>;
    let mut l: BroadcastLoop<u64> = BroadcastLoop::new();
    let (start, control) = l.handle(E::Update(Some((1, vec![10]))));
    assert_eq!(start, vec![10]);
    assert!(matches!(control, LoopControl::Continue));
    let (start, control) = l.handle(E::Signal(Some(ShutdownSignal::Soft)));
    assert!(start.is_empty());
    assert!(!matches!(control, LoopControl::StopSender));
    assert!(!l.is_idle());
    let (start, _) = l.handle(E::Finished(10, Ok(ChatStatus::Processed(1))));
    assert!(start.is_empty());
    assert!(l.is_idle());

    let mut l: BroadcastLoop<u64> = BroadcastLoop::new();
    let (start, control) = l.handle(E::Signal(Some(ShutdownSignal::Hard)));
    assert!(start.is_empty());
    assert!(!matches!(control, LoopControl::Continue));
}
