use allrisbot::message_builder::{
    blockquote, bold, code, chain, custom_emoji, expandable_blockquote, from_fn, italic, pre,
    pre_with_language, shown, spoiler, strikethrough, text_link, text_mention, underline, Error,
    MessageBuilder, MessageEntity, MessageEntityType, WriteToMessage, CHAR_LIMIT,
};

fn get_entity(entities: &Vec<MessageEntity>) -> &MessageEntity {
    entities.first().expect("expected at least one entity")
}

#[test]
fn test_simple_push() {
    let mut builder = MessageBuilder::new();
    builder.write_str("Hello, world!").unwrap();
    assert_eq!(builder.as_str(), "Hello, world!");
}

#[test]
fn test_entity_bold() {
    let (text, entities) = bold("bold text").to_message().unwrap();
    assert_eq!(text, "bold text");
    let entity = get_entity(&entities);
    assert_eq!(entity.offset, 0);
    assert_eq!(entity.length, 9);
    assert_eq!(entity.type_field, MessageEntityType::Bold);
}

#[test]
fn test_text_link() {
    let (text, entities) = text_link("https://example.com", "click here")
        .to_message()
        .unwrap();
    assert_eq!(text, "click here");
    let entity = get_entity(&entities);
    assert_eq!(entity.offset, 0);
    assert_eq!(entity.length, 10);
    assert_eq!(entity.type_field, MessageEntityType::TextLink);
    assert_eq!(entity.url.as_deref(), Some("https://example.com"));
}

#[test]
fn test_pre_with_language() {
    let (text, entities) = pre_with_language("rust", "fn main() {}")
        .to_message()
        .unwrap();
    assert_eq!(text, "fn main() {}");
    let entity = get_entity(&entities);
    assert_eq!(entity.type_field, MessageEntityType::Pre);
    assert_eq!(entity.language.as_deref(), Some("rust"));
}

#[test]
fn test_concat_macro() {
    let (text, entities) = chain(bold("Hello "), italic("world"))
        .to_message()
        .unwrap();
    assert_eq!(text, "Hello world");
    assert_eq!(entities.len(), 2);
    assert_eq!(entities[0].type_field, MessageEntityType::Bold);
    assert_eq!(entities[1].type_field, MessageEntityType::Italic);
    assert_eq!(entities[1].offset, 6);
}

#[test]
fn test_utf16_length() {
    let mut builder = MessageBuilder::new();
    builder.write_str("abc😀").unwrap();
    builder.write_str("💡").unwrap();

    assert_eq!(builder.len_utf16(), 7);
    assert_eq!(builder.len_chars(), 5);
}

#[test]
fn test_message_length_limit() {
    let long_str = "a".repeat(CHAR_LIMIT + 1);
    let result = MessageBuilder::new().write_str(&long_str);
    assert!(matches!(result, Err(Error::MessageTooLong)));

    let long_str = "😀".repeat(CHAR_LIMIT);
    MessageBuilder::new()
        .write_str(&long_str)
        .expect("CHAR_LIMIT characters are ok");
}

#[test]
fn test_custom_emoji() {
    let (text, entities) = chain(
        custom_emoji("emoji_id", '🍊'),
        custom_emoji("emoji_id", "👨‍💻"),
    )
    .to_message()
    .unwrap();

    assert_eq!(entities.len(), 2);
    assert_eq!(&text, "🍊👨‍💻");
}

#[test]
fn test_entity_offsets_with_unicode() {
    let (text, entities) = chain(
        bold(chain(
            "abc😀 ",
            chain(
                underline(" "),
                code(text_link("https://google.de", "")), // empty entities not counted
            ),
        )),
        italic("💡 test"),
    )
    .to_message()
    .unwrap();

    assert_eq!(text, "abc😀  💡 test");
    assert_eq!(entities.len(), 3);

    let underline_entity = &entities[0];
    let italic_entity = &entities[2];

    let underline_start = "abc😀 ".encode_utf16().count();
    let underline_len = 1;
    let italic_start = "abc😀  ".encode_utf16().count();
    let italic_len = "💡 test".trim_end().encode_utf16().count();

    assert_eq!(underline_entity.offset as usize, underline_start);
    assert_eq!(underline_entity.length as usize, underline_len);
    assert_eq!(italic_entity.offset as usize, italic_start);
    assert_eq!(italic_entity.length as usize, italic_len);
}

#[test]
fn test_custom_char_limit() {
    let mut msg = MessageBuilder::default();

    assert_eq!(msg.get_char_limit(), CHAR_LIMIT);
    msg.set_char_limit(10);
    assert_eq!(msg.get_char_limit(), 10);

    assert!(msg.write_str("12345").is_ok());
    assert!(msg.write_fmt(67).is_ok());
    assert_eq!(msg.as_str(), "1234567");

    let mut msg = MessageBuilder::new();
    assert_eq!(msg.get_char_limit(), CHAR_LIMIT);

    msg.set_char_limit(6);
    assert!(msg.write_str("abc").is_ok());
    assert!(msg.write_fmt("123").is_ok());
    assert!(msg.write_str("!").is_err());
    assert_eq!(msg.as_str(), "abc123");

    let mut msg = MessageBuilder::try_from(String::new()).unwrap();
    assert_eq!(msg.get_char_limit(), CHAR_LIMIT);

    msg.set_char_limit(4);
    assert!(msg.write_str("hello").is_err());
    assert_eq!(msg.as_str(), "");
}

#[test]
fn test_reset_message_builder() {
    let initial_text = "👋 Hello, world!";
    let next_text = "Lorem ipsum ✅";
    let overflow_text = "This is a long message that will exceed the limit!";

    let mut msg = MessageBuilder::default();
    msg.set_char_limit(30);

    msg.write(initial_text).unwrap();

    let old_msg = msg.clone();

    let from_fn_example = from_fn(move |message| {
        message.write(bold(next_text))?;
        message.write(overflow_text)
    });

    let result = from_fn_example.write_to(&mut msg);

    assert!(result.is_err());
    assert_eq!(old_msg, msg);
}

#[test]
fn test_error_on_write_fmt() {
    let mut msg = MessageBuilder::try_from(String::from("Test")).unwrap();
    msg.set_char_limit(50);
    let old_msg = msg.clone();

    msg.write_fmt(format!("{:?}", [i32::MAX; 10])).unwrap_err();

    assert_eq!(msg, old_msg);
}

#[test]
fn from_fn_writes_what_the_closure_writes() {
    let item = from_fn(|m| {
        m.write(bold("a"))?;
        m.writeln("b")?;
        m.write(7u64)
    });
    let (text, entities) = item.to_message().unwrap();
    assert_eq!(text, "ab\n7");
    assert_eq!(entities.len(), 1);
    assert_eq!((entities[0].offset, entities[0].length), (0, 1));
}

#[test]
fn chain_writes_all_or_nothing() {
    let mut msg = MessageBuilder::new();
    msg.set_char_limit(5);
    msg.write("ab").unwrap();
    let before = msg.clone();
    assert_eq!(msg.write(chain(bold("cd"), "ef")), Err(Error::MessageTooLong));
    assert_eq!(msg, before);
    assert_eq!(msg.write(chain(bold("cd"), "e")), Ok(()));
    assert_eq!(msg.as_str(), "abcde");
    let (_, entities) = msg.build();
    assert_eq!((entities[0].offset, entities[0].length), (2, 2));
}

#[test]
fn writeln_keeps_the_line_when_the_newline_does_not_fit() {
    let mut msg = MessageBuilder::new();
    msg.set_char_limit(3);
    assert!(msg.writeln("abc").is_err());
    assert_eq!(msg.as_str(), "abc");
}

#[test]
fn every_helper_has_its_entity_type() {
    let kind = |m: Result<(String, Vec<MessageEntity>), Error>| m.unwrap().1[0].type_field;
    assert_eq!(kind(bold("x").to_message()), MessageEntityType::Bold);
    assert_eq!(kind(italic("x").to_message()), MessageEntityType::Italic);
    assert_eq!(kind(underline("x").to_message()), MessageEntityType::Underline);
    assert_eq!(kind(strikethrough("x").to_message()), MessageEntityType::Strikethrough);
    assert_eq!(kind(spoiler("x").to_message()), MessageEntityType::Spoiler);
    assert_eq!(kind(code("x").to_message()), MessageEntityType::Code);
    assert_eq!(kind(pre("x").to_message()), MessageEntityType::Pre);
    assert_eq!(kind(blockquote("x").to_message()), MessageEntityType::Blockquote);
    assert_eq!(
        kind(expandable_blockquote("x").to_message()),
        MessageEntityType::ExpandableBlockquote
    );
}

#[test]
fn text_mention_links_to_the_user() {
    let (_, entities) = text_mention(-42, "me").to_message().unwrap();
    assert_eq!(entities[0].url.as_deref(), Some("tg://user?id=-42"));
    assert_eq!(entities[0].type_field, MessageEntityType::TextLink);
}

#[test]
fn error_text() {
    assert_eq!(Error::MessageTooLong.to_text(), "Message exceeds character limit");
}

#[test]
fn greeting() {
    let (text, entities) =
        chain(chain("👋 ", bold("Hello")), chain(" ", italic("world!"))).to_message().unwrap();

    assert_eq!(text, "👋 Hello world!");
    assert_eq!(entities[1].type_field, MessageEntityType::Italic);
    assert_eq!(entities[1].offset, 9);
}

#[test]
fn long_lists_are_truncated() {
    let truncation_marker = "[...]";
    let long_list = &["item"; 5000];

    let list = from_fn(|msg| {
        // Reserve space for the truncation marker
        msg.set_char_limit(CHAR_LIMIT - truncation_marker.len());

        let mut truncated = false;
        for item in long_list {
            if msg.writeln(*item).is_err() {
                truncated = true;
                break;
            }
        }

        // Restore full limit and add truncation marker, if necessary
        msg.set_char_limit(CHAR_LIMIT);
        if truncated {
            msg.write(truncation_marker).unwrap();
        }
        Ok(())
    });

    let (text, _) = list.to_message().unwrap();

    assert!(text.len() <= CHAR_LIMIT);
    assert!(text.ends_with(truncation_marker));
    assert_eq!(text, "item\n".repeat(818) + truncation_marker);
}

#[test]
fn a_message_is_as_a_closure_left_it() {
    let mut msg = MessageBuilder::new();
    msg.write("a").unwrap();
    let item = from_fn(|m| {
        m.set_char_limit(10);
        m.write(bold("bc"))
    });
    item.write_to(&mut msg).unwrap();
    assert_eq!(msg.as_str(), "abc");
    assert_eq!(msg.get_char_limit(), 10);
    let (text, entities) = chain(chain("x", bold(&item)), "y").to_message().unwrap();
    assert_eq!(text, "xbcy");
    let ranges: Vec<_> = entities.iter().map(|e| (e.offset, e.length)).collect();
    assert_eq!(ranges, vec![(1, 2), (1, 2)]);
}

#[test]
fn values_are_written_as_they_are_shown() {
    let (text, entities) = chain(shown(-7i32), bold(shown(1.5f64))).to_message().unwrap();
    assert_eq!(text, "-71.5");
    assert_eq!((entities[0].offset, entities[0].length), (2, 3));
    let mut msg = MessageBuilder::new();
    msg.set_char_limit(3);
    assert_eq!(msg.write(shown(1234)), Err(Error::MessageTooLong));
    assert_eq!(msg.as_str(), "");
}

#[test]
fn closures_can_be_concatenated() {
    let items = &[("Milk", false), ("", false), ("Bread", true), ("Eggs", false)];

    let list = from_fn(|msg| {
        for &(item, important) in items {
            if item.trim().is_empty() {
                continue;
            }

            if important {
                msg.writeln(bold(item))?;
            } else {
                msg.writeln(item)?;
            }
        }
        Ok(())
    });

    let (text, entities) = chain("Shopping List:\n", list).to_message().unwrap();

    assert_eq!(text.trim(), "Shopping List:\nMilk\nBread\nEggs");
    assert_eq!(entities.len(), 1);
    assert_eq!(entities[0].offset, 20);
    assert_eq!(entities[0].length, 5);
}
