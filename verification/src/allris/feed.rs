//! Announcements from the feed of released documents.

use chrono::DateTime;
use vstd::prelude::*;
use vstd::string::*;

use super::notification::{choose_author, link_buttons, write_notification};
use super::url::parse;
use super::website::WebsiteData;
use crate::pattern::captures;
use crate::text::{as_text, strip_prefix};
use crate::types::LinkButton;

verus! {

use super::notification::{author, button_texts, links_to, notification_text};
use super::url::url_parsed;
use super::website::WebsiteView;
use crate::pattern::{group_views, pattern_captures};
use crate::text::{opt_string, opt_text, string_views, stripped};

pub const TITLE_PATTERN: &'static str = "</h3>.*<h3>([^<]*)</h3>";

/// An entry of the feed.
#[derive(Debug, PartialEq, Eq)]
pub struct Item {
    pub title: String,
    pub link: String,
    pub description: String,
}

/// The title of the document that a description is about: what the first group
/// of the pattern matches in it.
pub open spec fn described_title(description: Seq<char>) -> Option<Seq<char>> {
    match pattern_captures(TITLE_PATTERN@, false, true, description, usize::BITS as int) {
        Some(groups) if groups.len() > 1 => groups[1],
        _ => None,
    }
}

/// The title of the document that a description is about.
fn find_title(description: &str) -> (r: Option<String>)
    ensures
        opt_string(r) == described_title(description@),
{
    match captures(TITLE_PATTERN, false, true, description) {
        Some(groups) => {
            assert(groups@.len() > 1 ==> group_views(groups@)[1] == opt_text(groups@[1]));
            if groups.len() > 1 {
                match groups[1] {
                    Some(title) => Some(title.to_owned()),
                    None => None,
                }
            } else {
                None
            }
        },
        None => None,
    }
}

/// The address that an entry links to, if the link is one.
pub open spec fn linked(link: Seq<char>) -> Option<Seq<char>> {
    match url_parsed(link) {
        Ok(url) => Some(url),
        Err(_) => None,
    }
}

/// The address that an entry links to, if the link is one.
pub fn link_of(item: &Item) -> (r: Option<String>)
    ensures
        opt_string(r) == linked(item.link@),
{
    match parse(item.link.as_str()) {
        Ok(url) => Some(url),
        Err(_) => None,
    }
}

/// When a feed was published.
#[derive(Debug, Clone, Copy, PartialEq, Eq, Structural)]
pub struct PubDate {
    /// Seconds since 1970 in UTC.
    pub secs: i64,
    /// Nanoseconds within the second, or beyond it in a leap second.
    pub nanos: u32,
    /// The local time is so many seconds ahead of UTC.
    pub offset: i32,
}

/// What [`DateTime::parse_from_rfc2822`] makes of a text: the seconds,
/// nanoseconds and the offset of the point in time, or what the error says.
pub uninterp spec fn rfc2822_parsed(text: Seq<char>) -> Result<(int, int, int), Seq<char>>;

/// What a date or an error says.
pub open spec fn date_view(r: Result<PubDate, String>) -> Result<(int, int, int), Seq<char>> {
    match r {
        Ok(d) => Ok((d.secs as int, d.nanos as int, d.offset as int)),
        Err(text) => Err(text@),
    }
}

/// [`DateTime::parse_from_rfc2822`]: what it gives depends on the text alone.
#[verifier::external_body]
fn parse_rfc2822(text: &str) -> (r: Result<PubDate, String>)
    ensures
        date_view(r) == rfc2822_parsed(text@),
{
    match DateTime::parse_from_rfc2822(text) {
        Ok(t) => Ok(PubDate {
            secs: t.timestamp(),
            nanos: t.timestamp_subsec_nanos(),
            offset: t.offset().local_minus_utc(),
        }),
        Err(e) => Err(e.to_string()),
    }
}

/// Reads when a feed was published.
pub fn pub_date(text: &str) -> (r: Result<PubDate, String>)
    ensures
        date_view(r) == rfc2822_parsed(text@),
{
    parse_rfc2822(text)
}

/// The announcement of a feed entry.
#[derive(Debug, PartialEq, Eq)]
pub struct FeedMessage {
    pub text: String,
    pub buttons: Vec<LinkButton>,
    pub gremien: Vec<String>,
}

/// How entries of the feed are announced.
#[derive(Debug, Clone, Copy, PartialEq, Eq, Structural)]
pub struct FeedRules {
    /// Leave out documents that were discussed already.
    pub skip_discussed: bool,
    /// Questions of residents have no author.
    pub questions_without_author: bool,
}

/// The announcement of an entry with a given title.
pub open spec fn announced(
    r: Option<FeedMessage>,
    title: Option<Seq<char>>,
    item_title: Seq<char>,
    url: Option<Seq<char>>,
    data: WebsiteView,
    rules: FeedRules,
) -> bool {
    match r {
        None => title is None || (rules.skip_discussed && data.already_discussed),
        Some(m) => {
            &&& title is Some
            &&& !(rules.skip_discussed && data.already_discussed)
            &&& m.text@ == notification_text(
                title->0,
                data.art,
                author(data.art, data.verfasser, data.amt, rules.questions_without_author),
                data.gremien,
                stripped(item_title, "Vorlage "@),
            )
            &&& button_texts(m.buttons@) == links_to(url, data.sammeldokument)
            &&& string_views(m.gremien@) == data.gremien
        },
    }
}

/// Announces an entry with a given title.
pub fn announce(
    title: Option<String>,
    item_title: &str,
    url: Option<&str>,
    data: WebsiteData,
    rules: FeedRules,
) -> (r: Option<FeedMessage>)
    ensures
        announced(r, opt_string(title), item_title@, opt_text(url), data@, rules),
{
    let title = match title {
        Some(title) => title,
        None => return None,
    };
    if rules.skip_discussed && data.already_discussed {
        return None;
    }
    let dsnr = strip_prefix(item_title, "Vorlage ");
    let author = choose_author(
        as_text(&data.art),
        as_text(&data.verfasser),
        as_text(&data.amt),
        rules.questions_without_author,
    );
    let text = write_notification(title.as_str(), as_text(&data.art), author, &data.gremien, dsnr);
    let buttons = link_buttons(url, as_text(&data.sammeldokument));
    Some(FeedMessage { text, buttons, gremien: data.gremien })
}

/// Announces an entry of the feed. The title of the document stands in the
/// description of the entry, its number in the title of the entry. A button
/// leads to where the entry links to.
pub fn generate_notification(
    item: &Item,
    data: WebsiteData,
    rules: FeedRules,
) -> (r: Option<FeedMessage>)
    ensures
        announced(
            r,
            described_title(item.description@),
            item.title@,
            linked(item.link@),
            data@,
            rules,
        ),
{
    let url = link_of(item);
    let title = find_title(item.description.as_str());
    announce(title, item.title.as_str(), as_text(&url), data, rules)
}

/// An entry is announced exactly if its document has a title and is not left out
/// as one that was discussed. What is announced is what was read off the
/// document's page, with the number from the entry's title.
pub proof fn law_entry_is_announced(
    title: Option<String>,
    item_title: &str,
    url: Option<&str>,
    data: WebsiteData,
    rules: FeedRules,
    r: Option<FeedMessage>,
    parts: (&str, Option<&str>, Option<&str>, Option<&str>, Option<&str>),
    number: Option<&str>,
    author: Option<&str>,
    text: String,
    buttons: Vec<LinkButton>,
)
    requires
        call_ensures(announce, (title, item_title, url, data, rules), r),
        title is Some ==> parts.0@ == title->0@,
        opt_text(parts.1) == opt_string(data.art),
        opt_text(parts.2) == opt_string(data.verfasser),
        opt_text(parts.3) == opt_string(data.amt),
        opt_text(parts.4) == opt_string(data.sammeldokument),
        call_ensures(strip_prefix, (item_title, "Vorlage "), number),
        call_ensures(
            choose_author,
            (parts.1, parts.2, parts.3, rules.questions_without_author),
            author,
        ),
        call_ensures(write_notification, (parts.0, parts.1, author, &data.gremien, number), text),
        call_ensures(link_buttons, (url, parts.4), buttons),
    ensures
        r is None <==> title is None || (rules.skip_discussed && data.already_discussed),
        r matches Some(m) ==> {
            &&& m.text@ == text@
            &&& m.buttons@.len() == buttons@.len()
            &&& forall|i: int|
                0 <= i < buttons@.len() ==> (#[trigger] m.buttons@[i]).text@ == buttons@[i].text@
                    && m.buttons@[i].url@ == buttons@[i].url@
            &&& m.gremien@.len() == data.gremien@.len()
            &&& forall|i: int|
                0 <= i < data.gremien@.len() ==> (#[trigger] m.gremien@[i])@ == data.gremien@[i]@
        },
{
    if let Some(m) = r {
        let said = button_texts(m.buttons@);
        assert(said == button_texts(buttons@));
        assert(said.len() == m.buttons@.len() && said.len() == buttons@.len());
        assert forall|i: int| 0 <= i < buttons@.len() implies (#[trigger] m.buttons@[i]).text@
            == buttons@[i].text@ && m.buttons@[i].url@ == buttons@[i].url@ by {
            assert(said[i] == (m.buttons@[i].text@, m.buttons@[i].url@));
            assert(said[i] == (buttons@[i].text@, buttons@[i].url@));
        }
        let bodies = string_views(m.gremien@);
        assert(bodies == string_views(data.gremien@));
        assert(bodies.len() == m.gremien@.len() && bodies.len() == data.gremien@.len());
        assert forall|i: int| 0 <= i < data.gremien@.len() implies (#[trigger] m.gremien@[i])@
            == data.gremien@[i]@ by {
            assert(bodies[i] == m.gremien@[i]@);
            assert(bodies[i] == data.gremien@[i]@);
        }
    }
}

/// An entry is announced like a document with the title that its description
/// gives, and with a link to where it leads, unless that is no address.
pub proof fn law_description_gives_the_title(
    item: &Item,
    data: WebsiteData,
    rules: FeedRules,
    r: Option<FeedMessage>,
    groups: Option<Seq<Option<Seq<char>>>>,
    title: Option<String>,
    link: Option<String>,
    url: Option<&str>,
    entry_title: &str,
    announced: Option<FeedMessage>,
)
    requires
        call_ensures(generate_notification, (item, data, rules), r),
        groups == pattern_captures(
            "</h3>.*<h3>([^<]*)</h3>"@,
            false,
            true,
            item.description@,
            usize::BITS as int,
        ),
        opt_string(title) == (if groups is Some && groups->0.len() > 1 {
            groups->0[1]
        } else {
            None
        }),
        call_ensures(link_of, (item,), link),
        opt_text(url) == opt_string(link),
        entry_title@ == item.title@,
        call_ensures(announce, (title, entry_title, url, data, rules), announced),
    ensures
        link is Some <==> url_parsed(item.link@) is Ok,
        link is Some ==> link->0@ == url_parsed(item.link@)->Ok_0,
        r is Some <==> announced is Some,
        r is Some ==> r->0.text@ == announced->0.text@ && button_texts(r->0.buttons@)
            == button_texts(announced->0.buttons@) && string_views(r->0.gremien@) == string_views(
            announced->0.gremien@,
        ),
{
}

/// The date of a feed is read as it is written, and an error says why it cannot
/// be read.
pub proof fn law_date_is_read(text: &str, r: Result<PubDate, String>)
    requires
        call_ensures(pub_date, (text,), r),
    ensures
        r is Ok <==> rfc2822_parsed(text@) is Ok,
        r matches Ok(d) ==> rfc2822_parsed(text@) == Ok::<(int, int, int), Seq<char>>(
            (d.secs as int, d.nanos as int, d.offset as int),
        ),
        r matches Err(why) ==> rfc2822_parsed(text@) == Err::<(int, int, int), Seq<char>>(why@),
{
}

} // verus!
