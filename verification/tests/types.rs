use allrisbot::types::{
    any_found, matches_any, same_filter, try_matches_any, Condition, Filter, Message, Tag,
};

fn condition(tag: Tag, pattern: &str, negate: bool) -> Condition {
    Condition { tag, pattern: pattern.to_owned(), negate }
}

fn message(tags: &[(Tag, &str)]) -> Message {
    Message {
        text: String::new(),
        buttons: vec![],
        tags: tags.iter().map(|(t, v)| (*t, v.to_string())).collect(),
    }
}

#[test]
fn conditions() {
    let m = message(&[(Tag::Gremium, "Rat der Stadt"), (Tag::Gremium, "Ausschuss"), (Tag::Art, "Antrag")]);
    assert!(condition(Tag::Gremium, "^Aus", false).matches(&m));
    assert!(!condition(Tag::Gremium, "^Antrag$", false).matches(&m));
    assert!(!condition(Tag::Gremium, "^Aus", true).matches(&m));
    assert!(condition(Tag::Verfasser, ".*", true).matches(&m));
    assert_eq!(condition(Tag::Gremium, "(", false).try_matches(&m.tags), None);
    assert_eq!(condition(Tag::Gremium, "^Aus", false).try_matches(&m.tags), Some(true));
    assert!(any_found(&m.tags, Tag::Gremium, &vec![false, true, false]));
    assert!(!any_found(&m.tags, Tag::Art, &vec![true, true, false]));
}

#[test]
fn filters() {
    let m = message(&[(Tag::Art, "Antrag"), (Tag::Dsnr, "251234")]);
    let empty = Filter { conditions: vec![] };
    assert!(empty.matches(&m));
    let both = Filter {
        conditions: vec![condition(Tag::Art, "Antrag", false), condition(Tag::Dsnr, "^25", false)],
    };
    assert!(both.matches(&m));
    let one = Filter {
        conditions: vec![condition(Tag::Art, "Antrag", false), condition(Tag::Dsnr, "^26", false)],
    };
    assert!(!one.matches(&m));
    let broken = Filter { conditions: vec![condition(Tag::Dsnr, "[", false)] };
    assert_eq!(broken.try_matches(&m), None);
    assert!(matches_any(&vec![one.clone(), both.clone()], &m));
    assert!(!matches_any(&vec![], &m));
    assert_eq!(try_matches_any(&vec![one.clone(), broken.clone()], &m), None);
    assert_eq!(try_matches_any(&vec![both.clone(), broken], &m), Some(true));
    assert_eq!(try_matches_any(&vec![], &m), Some(false));
    assert!(same_filter(&one, &one.clone()));
    assert!(!same_filter(&one, &both));
}

#[test]
fn texts() {
    let c = condition(Tag::Art, "Antrag", false);
    assert!(c.to_text().contains("Antrag"));
    assert!(c.to_text().contains(Tag::Art.label()));
    let f = Filter { conditions: vec![c, condition(Tag::Gremium, "Rat", true)] };
    assert!(f.to_text().contains("Antrag"));
    assert!(f.to_text().contains("Rat"));
    assert_eq!(Tag::tags().len(), 6);
    for tag in Tag::tags() {
        for other in Tag::tags() {
            assert_eq!(tag.label() == other.label(), tag == other);
        }
    }
}
