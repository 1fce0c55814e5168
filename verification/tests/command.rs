use allrisbot::bot::{find_command, handle, handle_text, kinds, start_shows, CommandKind, Handling, HandlerError, Incoming};
use allrisbot::command::{commands_for, CommandParser, CommandScope, ParsedCommand};

#[test]
fn test_command_parser() {
    struct TestCase<'a> {
        desc: &'a str,
        bot_username: Option<&'a str>,
        input: &'a str,
        expected_command: Option<&'a str>,
        expected_username: Option<&'a str>,
        expected_param: Option<&'a str>,
    }

    let cases = [
        // Bot username provided
        TestCase {
            desc: "Match with username and param",
            bot_username: Some("my_bot"),
            input: "/start@my_bot hello",
            expected_command: Some("start"),
            expected_username: Some("my_bot"),
            expected_param: Some("hello"),
        },
        TestCase {
            desc: "Match with username and no param",
            bot_username: Some("my_bot"),
            input: "/start@my_bot",
            expected_command: Some("start"),
            expected_username: Some("my_bot"),
            expected_param: None,
        },
        TestCase {
            desc: "Match with no username and param",
            bot_username: Some("my_bot"),
            input: "/start hello",
            expected_command: Some("start"),
            expected_username: None,
            expected_param: Some("hello"),
        },
        TestCase {
            desc: "Mismatch username",
            bot_username: Some("my_bot"),
            input: "/start@wrong_bot hello",
            expected_command: None,
            expected_username: None,
            expected_param: None,
        },
        // Bot username not provided
        TestCase {
            desc: "Username missing, param given",
            bot_username: None,
            input: "/start hello",
            expected_command: Some("start"),
            expected_username: None,
            expected_param: Some("hello"),
        },
        TestCase {
            desc: "Username present, param given",
            bot_username: None,
            input: "/start@other_bot hello",
            expected_command: Some("start"),
            expected_username: Some("other_bot"),
            expected_param: Some("hello"),
        },
        TestCase {
            desc: "Username present, no param",
            bot_username: None,
            input: "/start@other_bot",
            expected_command: Some("start"),
            expected_username: Some("other_bot"),
            expected_param: None,
        },
        TestCase {
            desc: "No username, no param",
            bot_username: None,
            input: "/start",
            expected_command: Some("start"),
            expected_username: None,
            expected_param: None,
        },
    ];

    for case in &cases {
        let parser = CommandParser::new(case.bot_username);
        let result = parser.parse(case.input);

        match case.expected_command {
            Some(cmd) => {
                let Some(parsed) = result else {
                    panic!("{}: Expected a match", case.desc)
                };
                assert_eq!(parsed.command, cmd, "{}: command mismatch", case.desc);
                assert_eq!(
                    parsed.username, case.expected_username,
                    "{}: username mismatch",
                    case.desc
                );
                assert_eq!(parsed.param, case.expected_param, "{}: param mismatch", case.desc);
            }
            None => assert!(result.is_none(), "{}: Expected no match", case.desc),
        }
    }
}

#[test]
fn a_username_is_no_pattern() {
    // the dot is escaped
    let parser = CommandParser::new(Some("a.b"));
    assert!(parser.parse("/start@a.b").is_some());
    assert!(parser.parse("/start@axb").is_none());
    assert!(parser.parse("start").is_none());
}

#[test]
fn groups_become_parts_of_a_command() {
    let parsed = ParsedCommand::from_groups(&vec![Some("/help x y"), Some("help"), None, Some("x y")]);
    assert_eq!(parsed.command, "help");
    assert_eq!(parsed.username, None);
    assert_eq!(parsed.param, Some("x y"));
}

#[test]
fn commands_have_names() {
    for kind in kinds() {
        assert!(find_command(kind.name()) == Some(kind));
    }
    assert!(find_command("nonsense").is_none());
    let help = CommandKind::Help;
    assert_eq!(help.command().to_text(), format!("/{} – {}\n", help.name(), help.description()));
}

#[test]
fn scopes_offer_commands() {
    let all: Vec<_> = kinds().iter().map(|k| k.command()).collect();
    let private = commands_for(&all, CommandScope::AllPrivateChats);
    assert!(private.iter().any(|c| c.name == CommandKind::Target.name()));
    for c in commands_for(&all, CommandScope::AllGroupChats) {
        assert!(c.group_member);
    }
    for c in commands_for(&all, CommandScope::AllChatAdministrators) {
        assert!(c.group_admin);
    }
}

fn incoming(text: &str) -> Incoming {
    Incoming { migrate_to_chat_id: None, text: Some(text.to_owned()), is_topic_message: None }
}

#[test]
fn messages_are_handled() {
    let parser = CommandParser::new(Some("my_bot"));
    let moved = Incoming { migrate_to_chat_id: Some(-5), ..incoming("/help") };
    assert!(matches!(handle(&parser, &moved), Handling::Migrate(-5)));
    let Handling::Command { kind, param } = handle(&parser, &incoming(&format!("/{} me", CommandKind::Help.name())))
    else {
        panic!("expected a command")
    };
    assert!(kind == CommandKind::Help);
    assert_eq!(param.as_deref(), Some("me"));
    assert!(matches!(handle(&parser, &incoming("hello")), Handling::Dialogue));
    let Handling::Error(HandlerError::UnknownCommand(name)) = handle(&parser, &incoming("/nope"))
    else {
        panic!("expected an error")
    };
    assert_eq!(name, "nope");
    assert!(matches!(
        handle_text(true, None),
        Handling::Error(HandlerError::TopicsNotSupported)
    ));
}

#[test]
fn starting_shows_help_or_more() {
    assert!(start_shows(None) == CommandKind::Help);
    assert!(start_shows(Some("x")) == CommandKind::Help);
    assert!(start_shows(Some(CommandKind::Privacy.name())) == CommandKind::Privacy);
}
