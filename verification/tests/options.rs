use allrisbot::options::{log_level, parse_owner_username, LogLevel};

#[test]
fn usernames() {
    assert_eq!(parse_owner_username("@Some_One1"), Ok("Some_One1".to_owned()));
    assert_eq!(parse_owner_username("someone"), Ok("someone".to_owned()));
    assert_eq!(parse_owner_username(""), Ok(String::new()));
    for s in ["@@someone", "some one", "müller", "a-b"] {
        assert_eq!(parse_owner_username(s), Err("Not a valid Telegram username".to_owned()));
    }
    let once = parse_owner_username("@x").unwrap();
    assert_eq!(parse_owner_username(&once), Ok(once));
}

#[test]
fn levels() {
    assert_eq!(log_level(true, 0), LogLevel::Off);
    assert_eq!(log_level(false, 0), LogLevel::Error);
    assert_eq!(log_level(false, 1), LogLevel::Warn);
    assert_eq!(log_level(false, 2), LogLevel::Info);
    assert_eq!(log_level(false, 3), LogLevel::Debug);
    assert_eq!(log_level(false, 200), LogLevel::Trace);
}
