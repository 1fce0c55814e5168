use allrisbot::filter_dialogue::{
    add_filter, cancel, checked_chat, filter_index, filter_removed, filter_saved,
    filters_removed, handle_message, invalid_input, list_filters, manage_channel, negation_keyboard,
    on_error, on_pattern, receive_channel_selection, receive_negation, receive_pattern,
    receive_tag, remove_at, start_delete_filter, tag_keyboard, tag_labelled, update_report, Command,
    Handling, Incoming, Keyboard, Outcome, Rights, State, StateWithChannel, TagOutcome, Write,
    ACTIVE_FILTERS, CANCELLED, CHANNEL_CHOSEN, CHOOSE_CHANNEL, FILTER_SAVED, IF_MATCHES,
    INVALID_PATTERN, INVALID_TAG, NOTHING_ACTIVE, NO_FILTERS, SAVE, UNLESS_MATCHES,
};
use allrisbot::registration::{on_permission_change, reply, Request};
use allrisbot::types::{Condition, Filter, Tag};

fn said(o: &Outcome) -> &str {
    o.reply.as_ref().map_or("", |r| r.text.as_str())
}

fn state(o: &Outcome) -> &State {
    match &o.write {
        Write::Update(s) => &s.state,
        _ => panic!("expected a state"),
    }
}

fn filters() -> Vec<Filter> {
    vec![Filter {
        conditions: vec![Condition { tag: Tag::Art, pattern: "Antrag".to_owned(), negate: false }],
    }]
}

#[test]
fn a_filter_is_made() {
    let o = add_filter(None);
    assert!(matches!(state(&o), State::ReceivingTag { previous_conditions } if previous_conditions.is_empty()));
    let TagOutcome::Done(o) = receive_tag(vec![], Some(Tag::Art.label()), None) else {
        panic!("expected a question")
    };
    assert!(matches!(state(&o), State::ReceivingNegation { tag: Tag::Art, .. }));
    let o = receive_negation(vec![], Tag::Art, Some(UNLESS_MATCHES), None);
    assert!(matches!(state(&o), State::ReceivingPattern { negation: true, .. }));
    let o = receive_negation(vec![], Tag::Art, Some(IF_MATCHES), None);
    assert!(matches!(state(&o), State::ReceivingPattern { negation: false, .. }));
    let o = receive_pattern(vec![], Tag::Art, true, Some("Antrag"), None);
    let State::ReceivingTag { previous_conditions } = state(&o) else {
        panic!("expected a question")
    };
    assert_eq!(previous_conditions.len(), 1);
    assert_eq!(previous_conditions[0].pattern, "Antrag");
    assert!(previous_conditions[0].negate);
    let TagOutcome::Save(f) = receive_tag(filters().remove(0).conditions, Some(SAVE), None) else {
        panic!("expected a filter")
    };
    assert_eq!(f.conditions.len(), 1);
    assert_eq!(said(&filter_saved()), FILTER_SAVED);
}

#[test]
fn wrong_answers_are_refused() {
    let TagOutcome::Done(o) = receive_tag(vec![], Some("nonsense"), None) else {
        panic!("expected a question")
    };
    assert_eq!(said(&o), INVALID_TAG);
    assert_eq!(said(&receive_pattern(vec![], Tag::Art, false, Some("("), None)), INVALID_PATTERN);
    let c = filters().remove(0).conditions.remove(0);
    assert_eq!(said(&on_pattern(vec![], c, false, None)), INVALID_PATTERN);
}

#[test]
fn keyboards_name_tags() {
    let labels: Vec<String> = tag_keyboard().rows.into_iter().flatten().collect();
    for tag in Tag::tags() {
        assert!(labels.iter().any(|l| l == tag.label()));
        assert!(tag_labelled(tag.label()) == Some(tag));
    }
    assert!(tag_labelled("nonsense").is_none());
    let answers: Vec<String> = negation_keyboard().rows.into_iter().flatten().collect();
    assert!(answers.contains(&IF_MATCHES.to_owned()));
}

#[test]
fn filters_are_listed_and_removed() {
    assert_eq!(said(&list_filters(&vec![])), NO_FILTERS);
    assert!(said(&list_filters(&filters())).starts_with(ACTIVE_FILTERS));
    let o = start_delete_filter(&filters(), None);
    assert!(matches!(state(&o), State::DeletingFilter));
    let Some(Keyboard::Texts(keyboard)) = o.reply.unwrap().keyboard else {
        panic!("expected a keyboard of texts")
    };
    assert!(!keyboard.resize);
    let rows = keyboard.rows;
    let mut fs = filters();
    let index = filter_index(Some(rows[0][0].as_str())).unwrap();
    assert_eq!(index, 0);
    assert!(remove_at(&mut fs, index));
    assert!(fs.is_empty());
    assert!(!remove_at(&mut fs, 0));
    assert!(filter_index(Some("nonsense")).is_none());
    assert!(filter_index(None).is_none());
    assert_eq!(said(&invalid_input()), "Ungültige Eingabe, Abbruch!");
    assert_ne!(said(&filter_removed(true)), said(&filter_removed(false)));
    assert_ne!(said(&filters_removed(true)), said(&filters_removed(false)));
    // the state was written before
    assert!(matches!(filter_removed(true).write, Write::Keep));
    assert!(matches!(filter_removed(false).write, Write::Keep));
    assert!(matches!(invalid_input().write, Write::Keep));
}

#[test]
fn channels_are_managed() {
    let o = manage_channel(true, 9);
    assert!(matches!(state(&o), State::ReceiveChannelSelection { request_id: 9 }));
    assert_eq!(said(&o), CHOOSE_CHANNEL);
    assert!(!o.reply_first);
    let Some(Keyboard::Channel(request)) = o.reply.unwrap().keyboard else {
        panic!("expected a button to share a channel")
    };
    assert_eq!(request.text, "Channel auswählen");
    assert_eq!(request.request_id, 9);
    assert_eq!(request.user_rights, Rights { can_invite_users: true, can_post_messages: true });
    assert_eq!(request.bot_rights, Rights { can_invite_users: false, can_post_messages: true });
    assert!(manage_channel(false, 9).reply.is_none());
    let o = receive_channel_selection(9, Some((9, -5)));
    assert_eq!(said(&o), CHANNEL_CHOSEN);
    assert!(matches!(&o.write, Write::Update(s) if s.channel == Some(-5)));
    assert_eq!(said(&receive_channel_selection(9, Some((8, -5)))), "");
    let admins = vec![4, 5];
    assert!(matches!(checked_chat(5, None, &vec![]), Ok(5)));
    assert!(matches!(checked_chat(5, Some(-7), &admins), Ok(-7)));
    assert!(checked_chat(6, Some(-7), &admins).is_err());
    assert!(checked_chat(-5, Some(-7), &admins).is_err());
    assert!(checked_chat(-1, Some(-7), &vec![u64::MAX]).is_err());
    assert_ne!(update_report(true), update_report(false));
}

#[test]
fn messages_go_to_the_dialogue() {
    let message = |text: &str| Incoming {
        migrate_to: None,
        command: None,
        text: Some(text.to_owned()),
        shared_chat: None,
    };
    let tagging = || StateWithChannel {
        channel: None,
        state: State::ReceivingTag { previous_conditions: vec![] },
    };
    let moved = Incoming { migrate_to: Some(-3), ..message("x") };
    assert!(matches!(handle_message(tagging(), moved), Handling::Migrate { to: -3, .. }));
    let help = || Incoming { command: Some(Command::Help), ..message("/help") };
    // only cancelling interrupts a dialogue
    let Handling::Done(o) = handle_message(tagging(), help()) else {
        panic!("expected a question")
    };
    assert_eq!(said(&o), INVALID_TAG);
    assert!(matches!(
        handle_message(StateWithChannel::default(), help()),
        Handling::Command { command: Command::Help, .. }
    ));
    assert!(matches!(handle_message(tagging(), message(SAVE)), Handling::Save { .. }));
    let deleting = StateWithChannel { channel: None, state: State::DeletingFilter };
    assert!(matches!(
        handle_message(deleting, message("nonsense")),
        Handling::Remove { index: None, write: Write::Exit, .. }
    ));
    let deleting = StateWithChannel { channel: Some(-4), state: State::DeletingFilter };
    assert!(matches!(
        handle_message(deleting, message("Filter 3")),
        Handling::Remove { index: Some(2), channel: Some(-4), write: Write::Exit }
    ));
    // afterwards the number of a filter means nothing
    let Handling::Done(o) = handle_message(StateWithChannel::default(), message("Filter 3")) else {
        panic!("expected nothing")
    };
    assert!(matches!(o.write, Write::Keep) && o.reply.is_none());
    assert!(!cancel(&tagging()).reply_first);
    assert_eq!(said(&on_error(false)), "Interner Fehler :((");
    assert!(on_error(true).reply.is_none());
    assert_eq!(said(&cancel(&tagging())), CANCELLED);
    assert_eq!(said(&cancel(&StateWithChannel::default())), NOTHING_ACTIVE);
}

#[test]
fn registrations_are_answered() {
    let texts: Vec<&str> = vec![
        reply::<()>(Request::Start, Ok(true)),
        reply::<()>(Request::Start, Ok(false)),
        reply::<()>(Request::Stop, Ok(true)),
        reply::<()>(Request::Stop, Ok(false)),
        reply(Request::Stop, Err(())),
    ];
    for (i, a) in texts.iter().enumerate() {
        for (j, b) in texts.iter().enumerate() {
            assert_eq!(a == b, i == j);
        }
    }
    assert!(matches!(on_permission_change(true, false, true), Some(Request::Start)));
    assert!(matches!(on_permission_change(true, true, false), Some(Request::Stop)));
    assert!(on_permission_change(true, true, true).is_none());
    assert!(on_permission_change(false, false, true).is_none());
}
