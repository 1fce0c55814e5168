use allrisbot::allris::feed::{
    announce, generate_notification as announce_item, link_of, pub_date, FeedRules, Item, PubDate,
};
use allrisbot::allris::notification::{
    choose_author, generate_notification, generate_tags, link_buttons, write_notification, Paper,
};
use allrisbot::allris::papers::{
    is_fresh, is_wanted, new_number, paper_action, start_update, take_in, update_window,
    PaperAction, PaperQueue, UpdateStart, UpdateWindow,
};
use allrisbot::allris::url::{
    directory_path, endpoint_url, find_value, should_retry, volfdnr, volfdnr_of_link, AllrisUrl,
    UrlError,
};
use allrisbot::allris::website::{
    extract_text, find_collected, first, lines, list, nonempty, scrape, website_data, Selections,
    WebsiteData,
};
use allrisbot::types::Tag;

fn strings(texts: &[&str]) -> Vec<String> {
    texts.iter().map(|s| s.to_string()).collect()
}

#[test]
fn addresses_end_with_a_slash() {
    let url = AllrisUrl::parse("https://www.bonn.sitzung-online.de/").unwrap();
    assert_eq!(url.as_str(), "https://www.bonn.sitzung-online.de/");
    let url = AllrisUrl::parse("https://example.org/public").unwrap();
    assert_eq!(url.as_str(), "https://example.org/public/");
    assert_eq!(url.feed_url().as_deref(), Some("https://example.org/public/rss/voreleased"));
    let Err(UrlError::Invalid(text)) = AllrisUrl::parse("nonsense") else {
        panic!("expected an error")
    };
    assert_eq!(text, "relative URL without a base");
    assert_eq!(directory_path("/a"), Some("/a/".to_owned()));
    assert_eq!(directory_path("/a/"), None);
    assert_eq!(directory_path(""), Some("/".to_owned()));
}

#[test]
fn documents_are_asked_for() {
    let url = AllrisUrl::parse("https://example.org").unwrap();
    assert_eq!(
        endpoint_url(&url, 1_700_000_000, None).as_deref(),
        Some(
            "https://example.org/oparl/papers?omit_internal=true\
             &modified_since=2023-11-14T22%3A13%3A20%2B00%3A00"
        )
    );
    assert_eq!(
        endpoint_url(&url, 0, Some(60)).as_deref(),
        Some(
            "https://example.org/oparl/papers?omit_internal=true\
             &modified_since=1970-01-01T00%3A00%3A00%2B00%3A00\
             &modified_until=1970-01-01T00%3A01%3A00%2B00%3A00"
        )
    );
    assert_eq!(endpoint_url(&url, i64::MAX, None), None);
}

#[test]
fn numbers_of_documents() {
    assert_eq!(volfdnr("https://x.de/oparl/papers?a=1&id=2000%201", "id").as_deref(), Some("2000 1"));
    assert_eq!(volfdnr("https://x.de/oparl/papers?a=1", "id"), None);
    assert_eq!(volfdnr("nonsense", "id"), None);
    assert_eq!(
        volfdnr_of_link("https://www.bonn.sitzung-online.de/vo020?VOLFDNR=77"),
        Some("77")
    );
    assert_eq!(volfdnr_of_link("https://example.org/vo020?VOLFDNR=77"), None);
    let pairs = vec![
        ("a".to_owned(), "1".to_owned()),
        ("b".to_owned(), "2".to_owned()),
        ("b".to_owned(), "3".to_owned()),
    ];
    assert_eq!(find_value(&pairs, "b").as_deref(), Some("2"));
    assert_eq!(find_value(&pairs, "c"), None);
}

#[test]
fn requests_are_retried() {
    assert!(should_retry(None));
    assert!(should_retry(Some(500)));
    assert!(should_retry(Some(599)));
    assert!(!should_retry(Some(404)));
    assert!(!should_retry(Some(600)));
}

#[test]
fn windows() {
    // 2023-11-14T22:13:20.5Z
    let window = update_window(1_700_000_000_500);
    assert_eq!(window, UpdateWindow { modified_since: 1_699_992_800, oldest_day: 19_673 });
    let window = update_window(-1);
    assert_eq!(window, UpdateWindow { modified_since: -7201, oldest_day: -3 });
    assert_eq!(start_update(None), UpdateStart::NoteTime);
    assert_eq!(start_update(Some(-1)), UpdateStart::Ask(window));
    update_window(i64::MIN);
    update_window(i64::MAX);
}

#[test]
fn old_documents_are_left_out() {
    assert!(is_wanted(false, Some(10), 10));
    assert!(!is_wanted(false, Some(9), 10));
    assert!(!is_wanted(true, Some(10), 10));
    assert!(!is_wanted(false, None, -10));
}

#[test]
fn organisations_grow_stale() {
    assert!(is_fresh(259_199_999_999_999, 0));
    assert!(!is_fresh(259_200_000_000_000, 0));
    assert!(is_fresh(i64::MIN, i64::MAX));
    assert!(!is_fresh(i64::MAX, i64::MIN));
}

#[test]
fn documents_come_in_ascending_order() {
    let mut queue = PaperQueue::new();
    for (number, paper) in [("30", 1), ("1", 2), ("200", 3), ("30", 4), ("9", 5)] {
        take_in(&mut queue, Some(number.to_owned()), false, paper);
    }
    take_in(&mut queue, Some("2".to_owned()), true, 6);
    take_in(&mut queue, None, false, 7);
    let papers = queue.into_papers();
    let numbers: Vec<_> = papers.iter().map(|(n, p)| (n.as_str(), *p)).collect();
    assert_eq!(numbers, vec![("1", 2), ("200", 3), ("30", 4), ("9", 5)]);
    assert_eq!(new_number(Some("2".to_owned()), true), None);
}

#[test]
fn documents_are_scheduled_or_noted() {
    assert_eq!(
        paper_action("1".to_owned(), Some(5)),
        PaperAction::Schedule { number: "1".to_owned(), message: 5 }
    );
    assert_eq!(
        paper_action::<u8>("1".to_owned(), None),
        PaperAction::NoteKnown { number: "1".to_owned() }
    );
}

const PAGE: &str = r#"<html><body>
<span id="voart"> Antrag </span>
<span id="voverfasser1">Fraktion A</span>
<span id="vofamt"><b>Amt</b> 61 </span>
<span id="vobamt">Amt 1; Amt 2 ;</span>
<div id="anunterstuetzer">Person A<br> Person B </div>
<div id="bfTable"><table><tbody>
<tr><td class="date">1.1.</td><td>x</td><td> Rat </td></tr>
<tr><td class="date">2.1.</td><td>x</td><td>  </td></tr>
<tr><td class="date">3.1.</td><td>x</td><td>Ausschuss &amp; Co</td></tr>
</tbody></table></div>
<div id="dokumenteHeaderPanel"><a href="a.pdf">Vorlage</a><a href="b.pdf">Sammeldokument</a></div>
</body></html>"#;

#[test]
fn pages_are_read() {
    let data = scrape(PAGE, "https://example.org/public/vo020?VOLFDNR=1").unwrap();
    assert_eq!(data.art.as_deref(), Some("Antrag"));
    assert_eq!(data.verfasser.as_deref(), Some("Fraktion A"));
    assert_eq!(data.amt.as_deref(), Some("Amt 61"));
    assert_eq!(data.beteiligt, strings(&["Amt 1", "Amt 2", ""]));
    assert_eq!(data.unterstuetzer, strings(&["Person A", "Person B"]));
    assert_eq!(data.gremien, strings(&["Rat", "Ausschuss & Co"]));
    assert_eq!(data.sammeldokument.as_deref(), Some("https://example.org/public/b.pdf"));
    assert!(!data.already_discussed);
    assert_eq!(scrape("", "https://example.org/"), Some(WebsiteData::default()));
}

#[test]
fn discussed_documents_are_recognised() {
    let html = r##"<div id="bfTable"><span class="toLink"><a href="#">TOP</a></span></div>"##;
    assert!(scrape(html, "https://example.org/").unwrap().already_discussed);
}

#[test]
fn selections_become_data() {
    assert_eq!(extract_text(&strings(&[" a", "b "])), "ab");
    let elements = vec![strings(&[" "]), strings(&["x", "y"]), strings(&[])];
    assert_eq!(nonempty(&elements), strings(&["xy"]));
    assert_eq!(first(&elements).as_deref(), Some(""));
    assert_eq!(first(&vec![]), None);
    assert_eq!(list(&vec![strings(&["a ;", " b"])]), strings(&["a", "b"]));
    assert_eq!(lines(&vec![strings(&[" a ", "b"]), strings(&["c"])]), strings(&["a", "b"]));
    assert!(list(&vec![]).is_empty());
    assert!(lines(&vec![]).is_empty());
    let documents = vec![strings(&["Vorlage"]), strings(&["Sammeldokument", "x"])];
    let links = vec![None, Some("s.pdf".to_owned())];
    assert_eq!(find_collected(&documents, &links).as_deref(), Some("s.pdf"));
    assert_eq!(find_collected(&documents, &vec![]), None);
    let selections = Selections {
        art: vec![],
        verfasser: vec![strings(&["V"])],
        unterstuetzer: vec![],
        amt: vec![],
        beteiligt: vec![],
        gremien: vec![],
        discussed: vec![vec![]],
        documents: vec![],
        document_links: vec![],
    };
    let data = website_data(&selections, None);
    assert_eq!(data.verfasser.as_deref(), Some("V"));
    assert!(data.already_discussed);
}

#[test]
fn authors() {
    let (v, a) = (Some("V"), Some("A"));
    assert_eq!(choose_author(Some("Informationsbrief"), v, a, true), None);
    assert_eq!(choose_author(Some("Anregungen und Beschwerden"), v, a, false), None);
    assert_eq!(choose_author(Some("Einwohnerfrage"), v, a, true), None);
    assert_eq!(choose_author(Some("Einwohnerfrage"), v, a, false), v);
    assert_eq!(choose_author(Some("Stellungnahme der Verwaltung"), v, a, true), a);
    assert_eq!(choose_author(Some("Stellungnahme der Verwaltung"), v, None, true), v);
    assert_eq!(choose_author(Some("Antrag"), v, a, true), v);
    assert_eq!(choose_author(None, None, a, true), a);
    assert_eq!(choose_author(None, None, None, true), None);
}

fn paper() -> Paper {
    Paper {
        name: Some("Titel".to_owned()),
        reference: Some("251234".to_owned()),
        paper_type: Some("Antrag <1>".to_owned()),
        web: Some("https://example.org/vo".to_owned()),
        main_file: Some("https://example.org/file".to_owned()),
    }
}

fn data() -> WebsiteData {
    WebsiteData {
        verfasser: Some("A & B".to_owned()),
        unterstuetzer: strings(&["A", "B"]),
        amt: Some("Amt 61".to_owned()),
        beteiligt: strings(&["Amt 1"]),
        gremien: strings(&["Rat", "Ausschuss"]),
        ..WebsiteData::default()
    }
}

#[test]
fn documents_are_announced() {
    let message = generate_notification(&paper(), &data()).unwrap();
    assert_eq!(
        message.text,
        "<b>Titel</b>\n\n📌 Antrag &lt;1&gt;\n👤 A &amp; B\n🏛\u{fe0f} Rat | Ausschuss\n📎 Ds.-Nr. 251234"
    );
    let buttons: Vec<_> =
        message.buttons.iter().map(|b| (b.text.as_str(), b.url.as_str())).collect();
    assert_eq!(
        buttons,
        vec![("🌐 Allris", "https://example.org/vo"), ("📄 PDF", "https://example.org/file")]
    );
    let tags: Vec<_> = message.tags.iter().map(|(t, v)| (*t, v.as_str())).collect();
    assert_eq!(
        tags,
        vec![
            (Tag::Dsnr, "251234"),
            (Tag::Art, "Antrag <1>"),
            (Tag::Verfasser, "A"),
            (Tag::Verfasser, "B"),
            (Tag::Federfuehrend, "Amt 61"),
            (Tag::Beteiligt, "Amt 61"),
            (Tag::Beteiligt, "Amt 1"),
            (Tag::Gremium, "Rat"),
            (Tag::Gremium, "Ausschuss"),
        ]
    );
}

#[test]
fn some_documents_are_not_announced() {
    assert!(generate_notification(&Paper { name: None, ..paper() }, &data()).is_none());
    assert!(generate_notification(&Paper { web: None, ..paper() }, &data()).is_none());
    let discussed = WebsiteData { already_discussed: true, ..data() };
    assert!(generate_notification(&paper(), &discussed).is_none());
    let bare = Paper { reference: None, paper_type: None, main_file: None, ..paper() };
    let message = generate_notification(&bare, &WebsiteData::default()).unwrap();
    assert_eq!(message.text, "<b>Titel</b>\n");
    assert_eq!(message.buttons.len(), 1);
    assert!(generate_tags(&bare, &WebsiteData::default()).is_empty());
}

#[test]
fn notifications_are_written() {
    assert_eq!(
        write_notification("T", None, Some("<&>"), &vec![], Some("1")),
        "<b>T</b>\n\n👤 &lt;&amp;&gt;\n📎 Ds.-Nr. 1"
    );
    assert!(link_buttons(None, None).is_empty());
}

#[test]
fn feed_entries_are_announced() {
    let rules = FeedRules { skip_discussed: true, questions_without_author: true };
    let item = Item {
        title: "Vorlage 251234".to_owned(),
        link: "https://example.org/vo020?VOLFDNR=1".to_owned(),
        description: "<h3>a</h3>\n<p/>\n<h3>Der Titel</h3>".to_owned(),
    };
    let found = WebsiteData {
        art: Some("Antrag".to_owned()),
        sammeldokument: Some("https://example.org/s.pdf".to_owned()),
        ..data()
    };
    let message = announce_item(&item, found, rules).unwrap();
    assert_eq!(
        message.text,
        "<b>Der Titel</b>\n\n📌 Antrag\n👤 A &amp; B\n🏛\u{fe0f} Rat | Ausschuss\n📎 Ds.-Nr. 251234"
    );
    assert_eq!(message.gremien, strings(&["Rat", "Ausschuss"]));
    assert_eq!(message.buttons.len(), 2);
    assert_eq!(Some(message.buttons[0].url.clone()), link_of(&item));
    let broken = Item { link: "no address".to_owned(), ..item };
    assert_eq!(link_of(&broken), None);
    assert!(announce_item(&broken, WebsiteData::default(), rules).unwrap().buttons.is_empty());
    let item = Item { link: "HTTPS://example.org".to_owned(), ..broken };
    assert_eq!(link_of(&item).unwrap(), "https://example.org/");

    let untitled = Item { description: "nothing".to_owned(), ..item };
    assert!(announce_item(&untitled, WebsiteData::default(), rules).is_none());

    let discussed = || WebsiteData { already_discussed: true, ..WebsiteData::default() };
    let title = || Some("T".to_owned());
    assert!(announce(title(), "x", None, discussed(), rules).is_none());
    let all = FeedRules { skip_discussed: false, ..rules };
    assert_eq!(announce(title(), "x", None, discussed(), all).unwrap().text, "<b>T</b>\n");
}

#[test]
fn publication_dates_are_read() {
    assert_eq!(
        pub_date("Wed, 18 Feb 2015 23:16:09 +0100"),
        Ok(PubDate { secs: 1_424_297_769, nanos: 0, offset: 3600 })
    );
    assert!(pub_date("yesterday").is_err());
}
