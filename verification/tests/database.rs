use allrisbot::database::{
    chat_state, current_filters, current_message_id, dialogue_key, first_entry, last_update,
    message_field, misses_deadline, plan_filter_write, registered_chat_key, ChatState,
    ErrorAction, FilterWrite, RetryCounter, RetryMethod, StreamId, StreamIdError,
    TimestampOutOfRange, UpdateId,
};
use allrisbot::types::Filter;

#[test]
fn keys() {
    assert_eq!(registered_chat_key(-12), "allrisbot:registered_chats:-12");
    assert_eq!(dialogue_key(7), "allrisbot:dialogue:7");
    assert_ne!(registered_chat_key(1), registered_chat_key(11));
}

#[test]
fn stream_ids() {
    let id = StreamId(1_700_000_000_000, 3);
    assert_eq!(id.to_text(), "1700000000000-3");
    assert_eq!(StreamId::parse(&id.to_text()), Some(id));
    assert_eq!(StreamId::from_bytes(b"5-18446744073709551615"), Ok(StreamId(5, u64::MAX)));
    for s in ["", "5", "5-", "-5", "5-x", "5-6-7", "18446744073709551616-0"] {
        assert_eq!(StreamId::from_bytes(s.as_bytes()), Err(StreamIdError::InvalidFormat));
    }
    assert_eq!(StreamId::from_bytes(&[0xff, b'-', b'1']), Err(StreamIdError::NotUtf8));
    assert!(!StreamIdError::NotUtf8.to_text().is_empty());
    assert_ne!(StreamIdError::NotUtf8.to_text(), StreamIdError::InvalidFormat.to_text());
    assert!(StreamId::zero().is_before(&id));
    assert!(StreamId(5, 9).is_before(&StreamId(6, 0)));
    assert!(!StreamId(5, 9).is_before(&StreamId(5, 9)));
    assert!(3u64.is_before(&4));
}

#[test]
fn records() {
    let id = StreamId(1, 2);
    assert_eq!(chat_state(Some(id), Some(4)), ChatState::Active { last_sent: id });
    assert_eq!(chat_state(None, Some(4)), ChatState::Migrated { to: 4 });
    assert_eq!(chat_state(None, None), ChatState::Stopped);
    assert_eq!(current_message_id(&vec![]), StreamId(0, 0));
    assert_eq!(current_message_id(&vec![id, StreamId(0, 9)]), id);
    assert_eq!(first_entry::<u8>(vec![]), None);
    assert_eq!(first_entry::<u8>(vec![vec![]]), None);
    assert_eq!(first_entry(vec![vec![1, 2], vec![3]]), Some(1));
    let fields = vec![
        (None, 1),
        (Some("other".to_owned()), 2),
        (Some("message".to_owned()), 3),
        (Some("message".to_owned()), 4),
    ];
    assert_eq!(message_field(fields), Some(3));
    assert_eq!(message_field(vec![(Some("other".to_owned()), 2)]), None);
}

#[test]
fn timestamps() {
    assert_eq!(last_update(None), Ok(None));
    assert_eq!(last_update(Some(1_700_000_000_500)), Ok(Some(1_700_000_000_500)));
    assert_eq!(last_update(Some(-1)), Ok(Some(-1)));
    assert_eq!(last_update(Some(i64::MAX)), Err(TimestampOutOfRange));
    let (min, max) = (-8_334_601_228_800_000, 8_210_266_876_799_999);
    assert_eq!(last_update(Some(min)), Ok(Some(min)));
    assert_eq!(last_update(Some(min - 1)), Err(TimestampOutOfRange));
    assert_eq!(last_update(Some(max)), Ok(Some(max)));
    assert_eq!(last_update(Some(max + 1)), Err(TimestampOutOfRange));
}

#[test]
fn retries() {
    let mut c = RetryCounter::new();
    assert_eq!(c.on_error(RetryMethod::RetryImmediately), ErrorAction::RetryNow);
    let wait = |delay_ms, reconnect| ErrorAction::Wait { delay_ms, reconnect };
    assert_eq!(c.on_error(RetryMethod::RetryImmediately), wait(250, false));
    assert_eq!(c.on_error(RetryMethod::WaitAndRetry), wait(1250, true));
    assert_eq!(c.on_error(RetryMethod::Reconnect), wait(6250, true));
    assert_eq!(c.on_error(RetryMethod::WaitAndRetry), wait(15000, false));
    assert_eq!(c.on_error(RetryMethod::WaitAndRetry), wait(15000, true));
    assert_eq!(c.on_error(RetryMethod::GiveUp), ErrorAction::Fail);
    c.on_success();
    assert_eq!(c.on_error(RetryMethod::WaitAndRetry), wait(50, false));
    assert!(misses_deadline(Some(5), 6));
    assert!(!misses_deadline(Some(6), 6));
    assert!(!misses_deadline(None, u64::MAX));
}

#[test]
fn filter_records() {
    let f = || vec![Filter { conditions: vec![] }];
    assert!(matches!(plan_filter_write(false, vec![]), FilterWrite::Nothing));
    assert!(matches!(plan_filter_write(true, vec![]), FilterWrite::RemoveChat));
    assert!(matches!(plan_filter_write(false, f()), FilterWrite::Store(v) if v.len() == 1));
    assert_eq!(current_filters(None).len(), 0);
    assert_eq!(current_filters(Some(None)).len(), 0);
    assert_eq!(current_filters(Some(Some(f()))).len(), 1);
}
