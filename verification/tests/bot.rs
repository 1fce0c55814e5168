use allrisbot::bot::admin::{becomes_admin, AdminToken};
use allrisbot::bot::cancel;
use allrisbot::bot::help;
use allrisbot::bot::new_rule::{self, PatternError, PatternInput, TagSelection, TagStep};
use allrisbot::bot::remove_all_rules::{self, ConfirmRemoveAllFilters};
use allrisbot::bot::remove_rule::{self, RemoveFilterSelection, RemoveStep};
use allrisbot::bot::rules;
use allrisbot::bot::target::{self, Alternatives, ChannelSelection};
use allrisbot::bot::{
    handle_error, reply_to, reset, response_thread, Dialogue, DialogueState, DialogueWrite,
    HandlerError, Plan,
};
use allrisbot::channel::{
    can_send_messages, is_authorized, selected_chat, ChatChoice, ChatMember, SelectedChannel,
};
use allrisbot::keyboard::{
    force_reply, keyboard_markup, match_action, Answer, Button, ChatShared, ReplyMarkup,
};
use allrisbot::message_builder::{Error, MessageEntityType};
use allrisbot::rich_text::{render, Piece};
use allrisbot::types::{Condition, Filter, Tag};

fn text(s: &str) -> Answer {
    Answer { text: Some(s.to_owned()), chat_shared: None }
}

fn in_state(state: DialogueState) -> Dialogue {
    Dialogue { channel: None, state }
}

fn filter(pattern: &str) -> Filter {
    Filter {
        conditions: vec![Condition { tag: Tag::Art, pattern: pattern.to_owned(), negate: false }],
    }
}

fn stored(plan: &Plan) -> &DialogueState {
    match &plan.dialogue {
        DialogueWrite::Store(d) => &d.state,
        _ => panic!("expected a dialogue"),
    }
}

fn channel(username: Option<&str>, title: Option<&str>) -> SelectedChannel {
    SelectedChannel {
        chat_id: -1_001_234_567_890,
        username: username.map(str::to_owned),
        title: title.map(str::to_owned),
    }
}

#[test]
fn pieces_are_rendered() {
    let pieces = vec![Piece::plain("ä🙂"), Piece::bold("b"), Piece::link("https://x.de", "l")];
    let (text, entities) = render(&pieces).unwrap();
    assert_eq!(text, "ä🙂bl");
    assert_eq!(entities.len(), 2);
    assert_eq!(entities[0].type_field, MessageEntityType::Bold);
    assert_eq!((entities[0].offset, entities[0].length), (3, 1));
    assert_eq!(entities[1].url.as_deref(), Some("https://x.de"));
    let long = vec![Piece::plain(&"x".repeat(4097))];
    assert!(matches!(render(&long), Err(Error::MessageTooLong)));
}

#[test]
fn channels() {
    let c = channel(None, None);
    assert_eq!(c.channel_id(), 1_234_567_890);
    assert_eq!(c.hyperlink().text, "„<unbekannt>“");
    let (_, entities) = render(&vec![c.hyperlink()]).unwrap();
    assert_eq!(entities[0].url.as_deref(), Some("https://t.me/c/1234567890"));
    assert_eq!(channel(Some("news"), None).hyperlink().text, "„@news“");
    assert_eq!(channel(Some("news"), Some("News")).hyperlink().text, "„News“");
    let (text, _) = render(&SelectedChannel::chat_selection(&None)).unwrap();
    assert_eq!(text, "💬 Dieser Chat");
    let (text, _) = render(&SelectedChannel::chat_selection_accusative(&Some(c))).unwrap();
    assert_eq!(text, "den Kanal „<unbekannt>“");
}

#[test]
fn members() {
    let admin = ChatMember::Administrator { user: 5, can_post_messages: Some(false) };
    assert!(!can_send_messages(&admin));
    assert!(can_send_messages(&ChatMember::Administrator { user: 5, can_post_messages: None }));
    assert!(can_send_messages(&ChatMember::Creator { user: 5 }));
    assert!(can_send_messages(&ChatMember::Member));
    assert!(!can_send_messages(&ChatMember::Restricted { can_send_messages: false }));
    assert!(!can_send_messages(&ChatMember::Left));
    assert!(!can_send_messages(&ChatMember::Kicked));
    let members = vec![ChatMember::Member, admin];
    assert!(is_authorized(&members, 5));
    assert!(!is_authorized(&members, 6));
    assert!(!is_authorized(&members, -5));

    assert!(matches!(selected_chat(5, &None, None), ChatChoice::Chat(5)));
    let c = Some(channel(None, None));
    assert!(matches!(selected_chat(5, &c, None), ChatChoice::AskMembers(-1_001_234_567_890)));
    assert!(matches!(
        selected_chat(5, &c, Some(&members)),
        ChatChoice::Chat(-1_001_234_567_890)
    ));
    assert!(matches!(
        selected_chat(6, &c, Some(&members)),
        ChatChoice::NotChannelAdmin { user: 6, .. }
    ));
}

#[test]
fn keyboards() {
    let choices = new_rule::buttons();
    let ReplyMarkup::Keyboard { rows, one_time, resize } = keyboard_markup(&choices) else {
        panic!("expected a keyboard")
    };
    assert!(one_time && resize);
    let (last, full) = rows.split_last().unwrap();
    assert!(full.iter().all(|row| row.len() == 2));
    assert!(last.len() == 1 || last.len() == 2);
    let labels: Vec<_> = rows
        .iter()
        .flatten()
        .map(|b| match b {
            Button::Text { text } => text.clone(),
            Button::RequestChat { text, .. } => text.clone(),
        })
        .collect();
    assert_eq!(labels.len(), choices.len());
    for (i, label) in labels.iter().enumerate() {
        assert_eq!(match_action(&choices, &text(label)), Some(i));
    }
    assert_eq!(match_action(&choices, &text("nonsense")), None);
    assert_eq!(
        force_reply("hint"),
        ReplyMarkup::ForceReply { placeholder: "hint".to_owned(), selective: true }
    );
}

#[test]
fn a_rule_is_made() {
    let plan = new_rule::handle_command(in_state(DialogueState::Initial)).unwrap();
    assert!(matches!(stored(&plan), DialogueState::TagSelection(s) if s.previous_conditions.is_empty()));

    let selection = TagSelection { previous_conditions: vec![] };
    let Ok(TagStep::Reply(plan)) = selection.handle_message(&text(Tag::Gremium.label()), None) else {
        panic!("expected a question")
    };
    assert!(matches!(stored(&plan), DialogueState::PatternInput(p) if p.tag == Tag::Gremium));

    let input = PatternInput { previous_conditions: vec![], tag: Tag::Gremium };
    let plan = input.handle_message(Some("^Rat"), None).unwrap();
    let DialogueState::TagSelection(s) = stored(&plan) else { panic!("expected a question") };
    assert_eq!(s.previous_conditions.len(), 1);
    assert_eq!(s.previous_conditions[0].pattern, "^Rat");
    assert!(!s.previous_conditions[0].negate);

    let done = TagSelection { previous_conditions: filter("x").conditions };
    let Ok(TagStep::Save(f)) = done.handle_message(&text(new_rule::SAVE), None) else {
        panic!("expected a rule")
    };
    assert_eq!(f.conditions[0].pattern, "x");
    assert!(new_rule::rule_saved(None).unwrap().reply.text.contains("diesen Chat"));
}

#[test]
fn patterns_are_checked() {
    let input = || PatternInput { previous_conditions: vec![], tag: Tag::Art };
    let refused = |plan: &Plan, s: &str| {
        assert!(plan.reply.text.contains(s), "{}", plan.reply.text);
        assert!(!matches!(&plan.dialogue, DialogueWrite::Store(d)
            if matches!(d.state, DialogueState::TagSelection(_))));
    };
    let plan = input().handle_message(Some("a\nb"), None).unwrap();
    refused(&plan, new_rule::NEWLINE_REFUSED);
    let plan = input().handle_message(Some("\\w{1000}"), None).unwrap();
    refused(&plan, new_rule::PATTERN_TOO_BIG);
    let plan = input().handle_message(Some("a(b"), None).unwrap();
    refused(&plan, "unclosed group");
    let plan = input().on_checked(false, "x", Err(PatternError::Invalid("why".to_owned())), None).unwrap();
    refused(&plan, "why");
    let plan = input().on_checked(true, "x", Ok(()), None).unwrap();
    let DialogueState::TagSelection(s) = stored(&plan) else { panic!("expected a question") };
    assert!(s.previous_conditions[0].negate);
}

#[test]
fn rules_are_listed_and_removed() {
    let plan = rules::handle_command(&None, &vec![]).unwrap();
    assert!(plan.reply.text.starts_with(rules::NO_RULES));
    let plan = rules::handle_command(&None, &vec![filter("a"), filter("b")]).unwrap();
    assert!(plan.reply.text.contains(&rules::name_of_rule(1)));

    let plan = remove_rule::handle_command(in_state(DialogueState::Initial), vec![filter("a"), filter("b")]).unwrap();
    assert!(matches!(stored(&plan), DialogueState::RemoveFilterSelection(s) if s.filters.len() == 2));

    let selection = || RemoveFilterSelection { filters: vec![filter("a"), filter("b")] };
    let RemoveStep::Remove { index, filter: f } = selection().handle_message(&text(&rules::name_of_rule(1))) else {
        panic!("expected a removal")
    };
    assert_eq!((index, f.conditions[0].pattern.as_str()), (1, "b"));
    assert!(matches!(selection().handle_message(&text("nonsense")), RemoveStep::Reply(_)));

    let mut filters = vec![filter("a"), filter("b")];
    assert!(!remove_rule::remove_filter(&mut filters, 0, &filter("b")));
    assert!(remove_rule::remove_filter(&mut filters, 1, &filter("b")));
    assert_eq!(filters.len(), 1);
    new_rule::add_filter(&mut filters, filter("c"));
    assert_eq!(filters[1].conditions[0].pattern, "c");
    assert_eq!(remove_rule::rule_removed(true, None).reply.text, remove_rule::REMOVED);
}

#[test]
fn all_rules_are_removed() {
    let plan = remove_all_rules::handle_command(in_state(DialogueState::Initial), true).unwrap();
    assert!(matches!(stored(&plan), DialogueState::ConfirmRemoveAllFilters(_)));
    assert!(ConfirmRemoveAllFilters.confirmed(&text(remove_all_rules::YES)));
    assert!(!ConfirmRemoveAllFilters.confirmed(&text(remove_all_rules::NO)));
    assert!(!ConfirmRemoveAllFilters.confirmed(&text("maybe")));
    assert_eq!(remove_all_rules::rules_removed(true, None).reply.text, remove_all_rules::REMOVED);
    assert_eq!(remove_all_rules::aborted(None).reply.text, remove_all_rules::ABORTED);
}

#[test]
fn a_target_is_chosen() {
    let dialogue = || in_state(DialogueState::Initial);
    let step = target::handle_command(5, 77, dialogue());
    let DialogueWrite::Store(d) = &step.dialogue else { panic!("expected a dialogue") };
    let DialogueState::ChannelSelection(s) = &d.state else { panic!("expected a question") };
    assert!(s.buttons.contains(&Alternatives::RequestChannel(77)));
    let step = target::handle_command(-5, 77, dialogue());
    assert_eq!(step.reply.unwrap().text, target::PRIVATE_ONLY);

    let selection = || ChannelSelection::new(77, true);
    let shared = Answer {
        text: None,
        chat_shared: Some(ChatShared {
            request_id: 77,
            chat_id: -1_001_234_567_890,
            title: Some("News".to_owned()),
            username: None,
        }),
    };
    let step = selection().handle_message(&shared).unwrap();
    let DialogueWrite::Store(d) = &step.dialogue else { panic!("expected a dialogue") };
    assert_eq!(d.channel.as_ref().unwrap().title.as_deref(), Some("News"));
    assert!(step.reply.unwrap().text.contains("News"));
    // the channel is kept even if the reply is too long
    let named = Answer {
        text: None,
        chat_shared: shared.chat_shared.map(|c| ChatShared { title: Some("x".repeat(4096)), ..c }),
    };
    let step = selection().handle_message(&named).unwrap();
    assert!(matches!(&step.dialogue, DialogueWrite::Store(d) if d.channel.is_some()));
    assert_eq!(step.reply, Err(HandlerError::Telegram));
    let step = selection().handle_message(&text(target::THIS_CHAT)).unwrap();
    assert_eq!(step.reply.unwrap().text, target::SWITCHED_BACK);
    assert!(selection().handle_message(&text("nonsense")).is_ok());
}

#[test]
fn commands_are_cancelled() {
    let plan = cancel::handle_command(in_state(DialogueState::Initial));
    assert_eq!(plan.reply.text, cancel::NOTHING_TO_CANCEL);
    let state = DialogueState::ConfirmRemoveAllFilters(ConfirmRemoveAllFilters);
    let plan = cancel::handle_command(in_state(state));
    assert_eq!(plan.reply.text, cancel::CANCELLED);
    assert!(matches!(reset(None), DialogueWrite::Store(d) if d == Dialogue::default()));
    assert!(cancel::privacy_text("notice", None).starts_with("notice"));
    assert!(cancel::privacy_text("notice", Some("owner")).contains("owner"));
}

#[test]
fn help_is_shown() {
    let (text, _) = help::message(false, Some("owner"), "https://x.de/repo", "1.2.3").unwrap();
    assert!(text.starts_with(help::NAME));
    assert!(text.contains("1.2.3"));
    assert!(text.contains("owner"));
}

#[test]
fn tokens() {
    let t = AdminToken::new(0);
    let s = t.to_text();
    assert_eq!(s.len(), 12);
    assert!(s.chars().all(|c| c.is_ascii_alphanumeric()));
    assert_ne!(s, AdminToken::new(0).to_text());

    let mut t = AdminToken::with_token("secret", 100);
    assert!(!t.validate("wrong", 0));
    assert!(!t.validate("secret", 100));
    assert!(t.validate("secret", 99));
    assert!(!t.validate("secret", 99));

    let mut t = Some(AdminToken::with_token("secret", 100));
    assert_eq!(becomes_admin(&mut t, "secret", -5, 0), None);
    assert_eq!(becomes_admin(&mut t, "secret", 5, 0), None);
    let mut t = Some(AdminToken::with_token("secret", 100));
    assert_eq!(becomes_admin(&mut t, "secret", 5, 0), Some(5));
    assert_eq!(becomes_admin(&mut None, "secret", 5, 0), None);
}

#[test]
fn errors_are_answered() {
    let r = handle_error(&HandlerError::NotChannelAdmin { user: 1, channel: 2 });
    assert!(r.remove_dialogue);
    assert!(r.reply.is_some());
    let r = handle_error(&HandlerError::TopicsNotSupported);
    assert_eq!(r.reply.unwrap().text, "Topics werden noch nicht unterstützt");
    let r = handle_error(&HandlerError::UnknownCommand("x".to_owned()));
    assert_eq!(r.reply.unwrap().text, "Unbekannter Befehl!");
    let r = handle_error(&HandlerError::Database);
    assert_eq!(r.reply.unwrap().text, "Ein interner Fehler ist aufgetreten 😢");
    assert!(handle_error(&HandlerError::UnexpectedMessage).reply.is_none());
}

#[test]
fn responses_go_to_the_right_place() {
    assert_eq!(reply_to(-1, 5), Some(5));
    assert_eq!(reply_to(1, 5), None);
    assert_eq!(response_thread(Some(true), Some(3)), Some(3));
    assert_eq!(response_thread(None, Some(3)), None);
}
