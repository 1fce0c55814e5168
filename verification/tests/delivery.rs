use allrisbot::delivery::{
    backoff_strategy, http_backoff, longest_backoff, random_backoff, ChatStatus, Delivery, Phase, SendAction, SendEvent,
};
use allrisbot::response::{ApiError, ClientError, Verdict};
use allrisbot::retrying::{
    sender_step, subscription_update, AttemptAction, Attempts, Outcome, SenderStep,
    SubscriptionUpdate,
};

fn started(delays: Vec<u64>) -> Delivery<u64> {
    let mut d = Delivery::new(-7, 42, delays, true);
    assert_eq!(d.chat_id(), -7);
    assert_eq!(d.update_id(), 42);
    assert_eq!(d.phase(), Phase::Acknowledging);
    assert_eq!(d.handle(SendEvent::Acknowledged(true)), SendAction::Send);
    assert!(!d.message_sent());
    d
}

#[test]
fn messages_are_delivered() {
    let mut d = started(vec![]);
    let action = d.handle(SendEvent::Responded(Verdict::Delivered));
    assert_eq!(action, SendAction::Finish(ChatStatus::Processed(42)));
    assert!(d.message_sent());
    assert_eq!(d.phase(), Phase::Finished);
}

#[test]
fn messages_that_are_not_next_are_not_sent() {
    let mut d = Delivery::new(1, 42, vec![], true);
    let action = d.handle(SendEvent::Acknowledged(false));
    assert_eq!(action, SendAction::Finish(ChatStatus::OutOfSync));
}

#[test]
fn failed_messages_are_retried() {
    let mut d = started(vec![11, 22]);
    for delay in [11, 22] {
        assert_eq!(d.handle(SendEvent::Responded(Verdict::Failed)), SendAction::Unacknowledge);
        assert_eq!(d.handle(SendEvent::Unacknowledged(true)), SendAction::Sleep(delay));
        assert_eq!(d.handle(SendEvent::Slept), SendAction::Acknowledge);
        assert_eq!(d.handle(SendEvent::Acknowledged(true)), SendAction::Send);
    }
    assert_eq!(
        d.handle(SendEvent::Responded(Verdict::Failed)),
        SendAction::Finish(ChatStatus::Processed(42))
    );
}

#[test]
fn telegram_says_when_to_retry() {
    let mut d = started(vec![11]);
    assert_eq!(d.handle(SendEvent::Responded(Verdict::RetryAfter(3))), SendAction::Unacknowledge);
    assert_eq!(d.handle(SendEvent::Unacknowledged(true)), SendAction::Sleep(3_000_000_000));
    let mut d = started(vec![11]);
    d.handle(SendEvent::Responded(Verdict::RetryAfter(3)));
    assert_eq!(
        d.handle(SendEvent::Unacknowledged(false)),
        SendAction::Finish(ChatStatus::OutOfSync)
    );
}

#[test]
fn chats_close_and_move() {
    let mut d = started(vec![]);
    assert_eq!(d.handle(SendEvent::Responded(Verdict::ChatClosed)), SendAction::RemoveChat);
    assert_eq!(d.handle(SendEvent::Removed), SendAction::Finish(ChatStatus::Stopped));

    let mut d = started(vec![]);
    assert_eq!(d.handle(SendEvent::Responded(Verdict::ChatMigrated(-9))), SendAction::Unacknowledge);
    assert_eq!(d.handle(SendEvent::Unacknowledged(true)), SendAction::MigrateChat(-9));
    assert_eq!(d.handle(SendEvent::Migrated), SendAction::Finish(ChatStatus::MigratedTo(-9)));

    let mut d = started(vec![]);
    let refused = d.handle(SendEvent::Responded(Verdict::Refused));
    assert_eq!(refused, SendAction::Finish(ChatStatus::Processed(42)));
}

#[test]
fn a_refused_token_stops_all_senders() {
    let mut d = started(vec![]);
    assert_eq!(d.handle(SendEvent::Responded(Verdict::InvalidToken)), SendAction::HardShutdown);
    assert_eq!(d.handle(SendEvent::ShutdownSent), SendAction::Unacknowledge);
    assert_eq!(
        d.handle(SendEvent::Unacknowledged(true)),
        SendAction::Finish(ChatStatus::ShuttingDown)
    );
}

#[test]
fn delays() {
    assert_eq!(
        backoff_strategy(),
        vec![60_000_000, 360_000_000, 2_160_000_000, 12_960_000_000, 77_760_000_000, 120_000_000_000]
    );
    let longest = [100_000_000, 1_000_000_000, 10_000_000_000, 30_000_000_000, 30_000_000_000];
    assert_eq!(longest_backoff(), longest);
    assert_eq!(http_backoff(), vec![20_000_000, 400_000_000, 8_000_000_000]);
    let mut differs = false;
    for _ in 0..20 {
        let delays = random_backoff();
        assert_eq!(delays.len(), 5);
        for (delay, longest) in delays.iter().zip(longest) {
            assert!(*delay <= longest);
            differs = differs || *delay < longest;
        }
    }
    assert!(differs);
}

#[test]
fn attempts_are_limited() {
    let failed = Err(ClientError::NoResponse);
    let mut a = Attempts::new(5, true);
    for ms in [500, 1500, 4500, 13500] {
        assert_eq!(a.handle(&failed), AttemptAction::Retry { after: ms * 1_000_000, chat_id: 5 });
    }
    assert_eq!(
        a.handle(&failed),
        AttemptAction::Finish { after: 40_500_000_000, outcome: Outcome::Active }
    );
}

#[test]
fn attempts_follow_the_chat() {
    let mut a = Attempts::new(5, true);
    assert_eq!(
        a.handle(&Err(ClientError::MigrateToChatId(-6))),
        AttemptAction::Retry { after: 0, chat_id: -6 }
    );
    assert_eq!(
        a.handle(&Err(ClientError::RetryAfter(2))),
        AttemptAction::Retry { after: 2_000_000_000, chat_id: -6 }
    );
    assert_eq!(
        a.handle(&Ok(())),
        AttemptAction::Finish { after: 0, outcome: Outcome::Migrated(-6) }
    );
    let gone = Err(ClientError::Api(ApiError::BotKicked));
    let mut a = Attempts::new(5, true);
    assert_eq!(a.handle(&gone), AttemptAction::Finish { after: 0, outcome: Outcome::Invalid });
    let other = Err(ClientError::Api(ApiError::Unrelated));
    let mut a = Attempts::new(5, true);
    assert_eq!(a.handle(&other), AttemptAction::Finish { after: 0, outcome: Outcome::Active });
    let mut a = Attempts::new(5, false);
    assert_eq!(a.handle(&other), AttemptAction::Retry { after: 500_000_000, chat_id: 5 });
}

#[test]
fn subscriptions_follow_the_outcome() {
    assert!(matches!(subscription_update(Outcome::Active), SubscriptionUpdate::Keep));
    assert!(matches!(subscription_update(Outcome::Invalid), SubscriptionUpdate::Remove));
    assert!(matches!(subscription_update(Outcome::Migrated(3)), SubscriptionUpdate::MoveTo(3)));
    assert!(matches!(sender_step::<u8, u8>(Ok(Some(1)), false), SenderStep::Process(1)));
    assert!(matches!(sender_step::<u8, u8>(Ok(None), true), SenderStep::Stop));
}
