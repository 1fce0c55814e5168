use allrisbot::response::{
    additional_errors, is_chat_gone, is_chat_invalid, map_error, of_client, persistent,
    telegram_errors, verdict, ApiError, ClientError, Error, ErrorResponse, RequestError,
    ResponseParameters, Verdict,
};

fn check_not_yet_added(is_invalid: impl Fn(&ApiError) -> bool) {
    for msg in additional_errors() {
        let api_error: teloxide::ApiError = serde_json::from_str(&format!("\"{msg}\"")).unwrap();
        assert_eq!(api_error, teloxide::ApiError::Unknown(msg.to_string()));
        assert!(is_invalid(&ApiError::Unknown(msg.to_string())));
    }
    assert_eq!(
        additional_errors(),
        vec![
            "Forbidden: bot was kicked from the channel chat",
            "Forbidden: bot was kicked from the group chat",
            "Bad Request: not enough rights to send text messages to the chat",
        ]
    );
}

/// As soon as this fails, `additional_errors` must be adapted
#[test]
fn message_sender_test_api_error_not_yet_added() {
    check_not_yet_added(is_chat_invalid);
}

#[test]
fn message_queue_test_api_error_not_yet_added() {
    check_not_yet_added(is_chat_gone);
}

#[test]
fn mod_test_api_error_not_yet_added() {
    check_not_yet_added(is_chat_gone);
}

#[test]
fn updater_test_api_error_not_yet_added() {
    check_not_yet_added(is_chat_gone);
}

fn api(code: u64, description: &str, parameters: Option<ResponseParameters>) -> Error {
    Error::Api(ErrorResponse { description: description.to_owned(), error_code: code, parameters })
}

#[test]
fn errors_are_mapped() {
    assert!(matches!(map_error(&Error::NoResponse), RequestError::Other));
    let moved = ResponseParameters { migrate_to_chat_id: Some(-7), retry_after: None };
    assert!(matches!(map_error(&api(400, "moved", Some(moved))), RequestError::ChatMigrated(-7)));
    let busy = ResponseParameters { migrate_to_chat_id: None, retry_after: Some(9) };
    assert!(matches!(map_error(&api(429, "busy", Some(busy))), RequestError::RetryAfter(9)));
    for text in telegram_errors() {
        assert!(matches!(map_error(&api(400, text, None)), RequestError::BotBlocked));
    }
    assert!(matches!(
        map_error(&api(400, "Bad Request: nonsense", None)),
        RequestError::ClientError
    ));
    assert!(matches!(map_error(&api(500, "Internal", None)), RequestError::Other));
    assert!(matches!(map_error(&api(401, "Unauthorized", None)), RequestError::InvalidToken));
    assert!(matches!(map_error(&api(404, "Not Found", None)), RequestError::InvalidToken));
}

#[test]
fn verdicts() {
    assert!(matches!(verdict(&Ok(())), Verdict::Delivered));
    assert!(matches!(verdict(&Err(Error::NoResponse)), Verdict::Failed));
    let nonsense = Err(api(400, "Bad Request: nonsense", None));
    assert!(matches!(verdict(&nonsense), Verdict::Refused));
    assert!(matches!(persistent(&Ok(())), Verdict::Delivered));
    assert!(matches!(persistent(&nonsense), Verdict::Failed));
    // a time to wait and a closed chat
    let busy = ResponseParameters { migrate_to_chat_id: None, retry_after: Some(9) };
    let both = Err(api(403, "Forbidden: bot was blocked by the user", Some(busy)));
    assert!(matches!(verdict(&both), Verdict::ChatClosed));
    assert!(matches!(persistent(&both), Verdict::RetryAfter(9)));
    assert!(matches!(
        of_client(&Err(ClientError::Api(ApiError::BotBlocked))),
        Verdict::ChatClosed
    ));
    assert!(matches!(
        of_client(&Err(ClientError::MigrateToChatId(4))),
        Verdict::ChatMigrated(4)
    ));
    assert!(matches!(of_client(&Err(ClientError::RetryAfter(4))), Verdict::RetryAfter(4)));
    assert!(matches!(of_client(&Err(ClientError::NoResponse)), Verdict::Failed));
}

#[test]
fn chats_are_gone_or_invalid() {
    assert!(is_chat_gone(&ApiError::ChatNotFound));
    assert!(!is_chat_gone(&ApiError::Unrelated));
    assert!(!is_chat_gone(&ApiError::Unknown("something else".to_owned())));
    assert!(is_chat_invalid(&ApiError::NotEnoughRightsToPostMessages));
    assert!(!is_chat_invalid(&ApiError::InvalidToken));
}
