//! The announcement of a document.

use teloxide::utils::html;
use vstd::prelude::*;
use vstd::string::*;

use super::website::WebsiteData;
use crate::text::{as_text, is_listed, join, same_text};
use crate::types::{LinkButton, Message, Tag};

verus! {

use super::website::WebsiteView;
use crate::text::{joined, listed, opt_string, opt_text, string_views};
use crate::types::tag_values;

pub const ALLRIS_BUTTON: &'static str = "🌐 Allris";

pub const PDF_BUTTON: &'static str = "📄 PDF";

pub const TYPE_LINE: &'static str = "\n📌 ";

pub const AUTHOR_LINE: &'static str = "\n👤 ";

pub const BODIES_LINE: &'static str = "\n🏛\u{fe0f} ";

pub const NUMBER_LINE: &'static str = "\n📎 Ds.-Nr. ";

pub const STATEMENT: &'static str = "Stellungnahme der Verwaltung";

/// A text as it is written in HTML.
pub open spec fn html_escaped(s: Seq<char>) -> Seq<char>
    decreases s.len(),
{
    if s.len() == 0 {
        Seq::empty()
    } else {
        let rest = html_escaped(s.drop_last());
        let c = s.last();
        if c == '&' {
            rest + "&amp;"@
        } else if c == '<' {
            rest + "&lt;"@
        } else if c == '>' {
            rest + "&gt;"@
        } else {
            rest.push(c)
        }
    }
}

/// [`html::escape`] replaces ampersands and angle brackets by their entities.
#[verifier::external_body]
fn html_escape(s: &str) -> (r: String)
    ensures
        r@ == html_escaped(s@),
{
    html::escape(s)
}

/// [`html::bold`] puts a text between tags, without escaping it.
#[verifier::external_body]
fn html_bold(s: &str) -> (r: String)
    ensures
        r@ == "<b>"@ + s@ + "</b>"@,
{
    html::bold(s)
}

/// The types of documents whose author says nothing, as it is always the same
/// office.
pub open spec fn spec_authorless(with_questions: bool) -> Seq<&'static str> {
    if with_questions {
        seq!["Anregungen und Beschwerden", "Einwohnerfrage", "Informationsbrief"]
    } else {
        seq!["Anregungen und Beschwerden", "Informationsbrief"]
    }
}

fn authorless(with_questions: bool) -> (r: Vec<&'static str>)
    ensures
        r@ == spec_authorless(with_questions),
{
    let r = if with_questions {
        vec!["Anregungen und Beschwerden", "Einwohnerfrage", "Informationsbrief"]
    } else {
        vec!["Anregungen und Beschwerden", "Informationsbrief"]
    };
    assert(r@ =~= spec_authorless(with_questions));
    r
}

/// Who is named as the author of a document.
pub open spec fn author(
    paper_type: Option<Seq<char>>,
    verfasser: Option<Seq<char>>,
    amt: Option<Seq<char>>,
    with_questions: bool,
) -> Option<Seq<char>> {
    if paper_type is Some && listed(spec_authorless(with_questions), paper_type->0) {
        None
    } else if paper_type == Some(STATEMENT@) && amt is Some {
        amt
    } else if verfasser is Some {
        verfasser
    } else {
        amt
    }
}

/// Decides who is named as the author of a document.
pub fn choose_author<'a>(
    paper_type: Option<&str>,
    verfasser: Option<&'a str>,
    amt: Option<&'a str>,
    with_questions: bool,
) -> (r: Option<&'a str>)
    ensures
        opt_text(r) == author(
            opt_text(paper_type),
            opt_text(verfasser),
            opt_text(amt),
            with_questions,
        ),
{
    if let Some(t) = paper_type {
        let without = authorless(with_questions);
        if is_listed(without.as_slice(), t) {
            return None;
        }
        if same_text(t, STATEMENT) && amt.is_some() {
            return amt;
        }
    }
    if verfasser.is_some() {
        verfasser
    } else {
        amt
    }
}

/// A line of a notification, if there is something to say.
pub open spec fn line(start: Seq<char>, text: Option<Seq<char>>) -> Seq<char> {
    match text {
        Some(t) => start + html_escaped(t),
        None => Seq::empty(),
    }
}

/// The text of a notification.
pub open spec fn notification_text(
    title: Seq<char>,
    paper_type: Option<Seq<char>>,
    author: Option<Seq<char>>,
    gremien: Seq<Seq<char>>,
    dsnr: Option<Seq<char>>,
) -> Seq<char> {
    "<b>"@ + title + "</b>"@ + "\n"@ + line(TYPE_LINE@, paper_type) + line(AUTHOR_LINE@, author)
        + line(
        BODIES_LINE@,
        if gremien.len() == 0 {
            None
        } else {
            Some(joined(gremien, " | "@))
        },
    ) + line(NUMBER_LINE@, dsnr)
}

/// Appends a line, if there is something to say.
fn push_line(s: &mut String, start: &str, text: Option<&str>)
    ensures
        final(s)@ == old(s)@ + line(start@, opt_text(text)),
{
    match text {
        Some(t) => {
            s.append(start);
            let escaped = html_escape(t);
            s.append(escaped.as_str());
            assert(s@ =~= old(s)@ + (start@ + html_escaped(t@)));
        },
        None => {
            assert(s@ =~= old(s)@ + Seq::empty());
        },
    }
}

/// Writes a notification.
pub fn write_notification(
    title: &str,
    paper_type: Option<&str>,
    author: Option<&str>,
    gremien: &Vec<String>,
    dsnr: Option<&str>,
) -> (s: String)
    ensures
        s@ == notification_text(
            title@,
            opt_text(paper_type),
            opt_text(author),
            string_views(gremien@),
            opt_text(dsnr),
        ),
{
    let mut s = html_bold(title);
    s.append("\n");
    push_line(&mut s, TYPE_LINE, paper_type);
    push_line(&mut s, AUTHOR_LINE, author);
    if gremien.len() != 0 {
        let all = join(gremien, " | ");
        push_line(&mut s, BODIES_LINE, Some(all.as_str()));
    } else {
        assert(s@ + line(BODIES_LINE@, None) =~= s@);
    }
    push_line(&mut s, NUMBER_LINE, dsnr);
    s
}

/// A document, as far as it is announced.
#[derive(Debug, PartialEq, Eq)]
pub struct Paper {
    pub name: Option<String>,
    pub reference: Option<String>,
    pub paper_type: Option<String>,
    /// The address of the document's page.
    pub web: Option<String>,
    /// The address of the main file.
    pub main_file: Option<String>,
}

/// A tag with each of the values.
pub open spec fn tagged(tag: Tag, values: Seq<Seq<char>>) -> Seq<(Tag, Seq<char>)> {
    values.map_values(|v: Seq<char>| (tag, v))
}

/// A tag with the value, if there is one.
pub open spec fn tagged_opt(tag: Tag, value: Option<Seq<char>>) -> Seq<(Tag, Seq<char>)> {
    match value {
        Some(v) => seq![(tag, v)],
        None => Seq::empty(),
    }
}

/// The tags of a document. The leading office is also an involved one.
pub open spec fn tags_of(
    dsnr: Option<Seq<char>>,
    paper_type: Option<Seq<char>>,
    data: WebsiteView,
) -> Seq<(Tag, Seq<char>)> {
    tagged_opt(Tag::Dsnr, dsnr) + tagged_opt(Tag::Art, paper_type) + tagged(
        Tag::Verfasser,
        data.unterstuetzer,
    ) + tagged_opt(Tag::Federfuehrend, data.amt) + tagged_opt(Tag::Beteiligt, data.amt) + tagged(
        Tag::Beteiligt,
        data.beteiligt,
    ) + tagged(Tag::Gremium, data.gremien)
}

/// Appends a tag with the value, if there is one.
fn push_tag(tags: &mut Vec<(Tag, String)>, tag: Tag, value: &Option<String>)
    ensures
        tag_values(final(tags)@) == tag_values(old(tags)@) + tagged_opt(tag, opt_string(*value)),
{
    if let Some(v) = value {
        tags.push((tag, v.clone()));
    }
    assert(tag_values(tags@) =~= tag_values(old(tags)@) + tagged_opt(tag, opt_string(*value)));
}

/// Appends a tag with each of the values.
fn push_tags(tags: &mut Vec<(Tag, String)>, tag: Tag, values: &Vec<String>)
    ensures
        tag_values(final(tags)@) == tag_values(old(tags)@) + tagged(tag, string_views(values@)),
{
    let ghost all = string_views(values@);
    let ghost start = tag_values(tags@);
    let mut i: usize = 0;
    assert(start + tagged(tag, all.take(0)) =~= start);
    while i < values.len()
        invariant
            i <= values@.len(),
            all == string_views(values@),
            tag_values(tags@) == start + tagged(tag, all.take(i as int)),
        decreases values@.len() - i,
    {
        let ghost before = tag_values(tags@);
        let value = values[i].clone();
        assert(value@ == all[i as int]);
        tags.push((tag, value));
        assert(tag_values(tags@) =~= before.push((tag, all[i as int])));
        assert(tagged(tag, all.take(i + 1)) =~= tagged(tag, all.take(i as int)).push(
            (tag, all[i as int]),
        ));
        i = i + 1;
    }
    assert(all.take(all.len() as int) =~= all);
}

/// The tags of a document.
pub fn generate_tags(paper: &Paper, data: &WebsiteData) -> (r: Vec<(Tag, String)>)
    ensures
        tag_values(r@) == tags_of(opt_string(paper.reference), opt_string(paper.paper_type), data@),
{
    let mut tags: Vec<(Tag, String)> = Vec::new();
    assert(tag_values(tags@) =~= Seq::<(Tag, Seq<char>)>::empty());
    push_tag(&mut tags, Tag::Dsnr, &paper.reference);
    assert(tag_values(tags@) =~= tagged_opt(Tag::Dsnr, opt_string(paper.reference)));
    push_tag(&mut tags, Tag::Art, &paper.paper_type);
    push_tags(&mut tags, Tag::Verfasser, &data.unterstuetzer);
    push_tag(&mut tags, Tag::Federfuehrend, &data.amt);
    push_tag(&mut tags, Tag::Beteiligt, &data.amt);
    push_tags(&mut tags, Tag::Beteiligt, &data.beteiligt);
    push_tags(&mut tags, Tag::Gremium, &data.gremien);
    tags
}

/// What links below a message say.
pub open spec fn button_texts(buttons: Seq<LinkButton>) -> Seq<(Seq<char>, Seq<char>)> {
    buttons.map_values(|b: LinkButton| (b.text@, b.url@))
}

/// The links to a page and a file, as far as there are any.
pub open spec fn links_to(page: Option<Seq<char>>, file: Option<Seq<char>>) -> Seq<
    (Seq<char>, Seq<char>),
> {
    let first = match page {
        Some(url) => seq![(ALLRIS_BUTTON@, url)],
        None => Seq::empty(),
    };
    match file {
        Some(url) => first.push((PDF_BUTTON@, url)),
        None => first,
    }
}

/// The links to a page and a file.
pub fn link_buttons(page: Option<&str>, file: Option<&str>) -> (r: Vec<LinkButton>)
    ensures
        button_texts(r@) == links_to(opt_text(page), opt_text(file)),
{
    let mut r: Vec<LinkButton> = Vec::new();
    if let Some(url) = page {
        r.push(LinkButton { text: ALLRIS_BUTTON.to_owned(), url: url.to_owned() });
    }
    if let Some(url) = file {
        r.push(LinkButton { text: PDF_BUTTON.to_owned(), url: url.to_owned() });
    }
    assert(button_texts(r@) =~= links_to(opt_text(page), opt_text(file)));
    r
}

/// Announces a document, unless it has no title or page, or was discussed
/// already.
pub fn generate_notification(paper: &Paper, data: &WebsiteData) -> (r: Option<Message>)
    ensures
        r is Some <==> paper.name is Some && paper.web is Some && !data.already_discussed,
        r matches Some(m) ==> {
            let paper_type = opt_string(paper.paper_type);
            &&& m.text@ == notification_text(
                paper.name->0@,
                paper_type,
                author(paper_type, data@.verfasser, data@.amt, true),
                data@.gremien,
                opt_string(paper.reference),
            )
            &&& button_texts(m.buttons@) == links_to(
                opt_string(paper.web),
                opt_string(paper.main_file),
            )
            &&& tag_values(m.tags@) == tags_of(opt_string(paper.reference), paper_type, data@)
        },
{
    let title = match &paper.name {
        Some(name) => name,
        None => return None,
    };
    let url = match &paper.web {
        Some(url) => url,
        None => return None,
    };
    let tags = generate_tags(paper, data);
    if data.already_discussed {
        return None;
    }
    let paper_type = as_text(&paper.paper_type);
    let author = choose_author(paper_type, as_text(&data.verfasser), as_text(&data.amt), true);
    let text = write_notification(
        title.as_str(),
        paper_type,
        author,
        &data.gremien,
        as_text(&paper.reference),
    );
    let buttons = link_buttons(Some(url.as_str()), as_text(&paper.main_file));
    Some(Message { text, buttons, tags })
}

/// Nothing in an escaped text can be taken for a tag.
pub proof fn law_escaped_has_no_tags(s: Seq<char>)
    ensures
        !html_escaped(s).contains('<'),
        !html_escaped(s).contains('>'),
    decreases s.len(),
{
    reveal_strlit("&amp;");
    reveal_strlit("&lt;");
    reveal_strlit("&gt;");
    if s.len() > 0 {
        law_escaped_has_no_tags(s.drop_last());
        let rest = html_escaped(s.drop_last());
        let all = html_escaped(s);
        assert forall|i: int| 0 <= i < all.len() implies all[i] != '<' && all[i] != '>' by {
            if i < rest.len() {
                assert(all[i] == rest[i]);
                assert(rest.contains(rest[i]));
            }
        }
    }
}

/// A condition with a pattern that is found in the name of one of a document's
/// bodies holds of the document's announcement.
pub proof fn law_bodies_can_be_filtered(
    dsnr: Option<Seq<char>>,
    paper_type: Option<Seq<char>>,
    data: WebsiteView,
    pattern: Seq<char>,
    i: int,
)
    requires
        0 <= i < data.gremien.len(),
        crate::types::is_regex(pattern),
        crate::types::pattern_found(pattern, data.gremien[i]),
    ensures
        crate::types::condition_holds(
            crate::types::ConditionView { tag: Tag::Gremium, pattern, negate: false },
            tags_of(dsnr, paper_type, data),
        ),
{
    let tags = tags_of(dsnr, paper_type, data);
    let bodies = tagged(Tag::Gremium, data.gremien);
    let k = tags.len() - bodies.len() + i;
    assert(tags[k] == bodies[i]);
    assert(tags[k].0 == Tag::Gremium);
}

/// The author of a document is left out for certain types alone. Of any other,
/// with or without a type, the one who wrote it is named, and the office where
/// nobody is known, or where the administration states its view.
pub proof fn law_author_is_named(
    paper_type: Option<&str>,
    verfasser: Option<&str>,
    amt: Option<&str>,
    with_questions: bool,
    r: Option<&str>,
)
    requires
        call_ensures(choose_author, (paper_type, verfasser, amt, with_questions), r),
    ensures
        ({
            let silent = paper_type matches Some(t) && (t@ == "Anregungen und Beschwerden"@ || t@
                == "Informationsbrief"@ || (with_questions && t@ == "Einwohnerfrage"@));
            let stated = paper_type matches Some(t) && t@ == "Stellungnahme der Verwaltung"@;
            &&& silent ==> r is None
            &&& !silent ==> (r is None <==> verfasser is None && amt is None)
            &&& !silent && verfasser is Some && (amt is None || !stated) ==> r->0@ == verfasser->0@
            &&& !silent && amt is Some && (verfasser is None || stated) ==> r->0@ == amt->0@
        }),
{
    if let Some(t) = paper_type {
        let types = spec_authorless(with_questions);
        reveal_strlit("Anregungen und Beschwerden");
        reveal_strlit("Informationsbrief");
        reveal_strlit("Einwohnerfrage");
        reveal_strlit("Stellungnahme der Verwaltung");
        assert(types[0]@ == "Anregungen und Beschwerden"@);
        if with_questions {
            assert(types[1]@ == "Einwohnerfrage"@);
            assert(types[2]@ == "Informationsbrief"@);
        } else {
            assert(types[1]@ == "Informationsbrief"@);
        }
    }
}

/// A notification starts with the title in bold letters and a line break. A
/// document of which only the title is known has no more to say.
pub proof fn law_notification_starts_with_title(
    title: &str,
    paper_type: Option<&str>,
    author: Option<&str>,
    gremien: Vec<String>,
    dsnr: Option<&str>,
    s: String,
)
    requires
        call_ensures(write_notification, (title, paper_type, author, &gremien, dsnr), s),
    ensures
        s@.len() >= title@.len() + 8,
        s@.take(title@.len() as int + 8) == seq!['<', 'b', '>'] + title@ + seq![
            '<',
            '/',
            'b',
            '>',
            '\n',
        ],
        paper_type is None && author is None && gremien@.len() == 0 && dsnr is None ==> s@.len()
            == title@.len() + 8,
{
    reveal_strlit("<b>");
    reveal_strlit("</b>");
    reveal_strlit("\n");
    assert(s@.take(title@.len() as int + 8) =~= seq!['<', 'b', '>'] + title@ + seq![
        '<',
        '/',
        'b',
        '>',
        '\n',
    ]);
}

/// Each thing that is known of a document adds a line with what it is, escaped,
/// and changes nothing else: the type comes first, then the author, the bodies
/// and the number.
pub proof fn law_notification_lines(
    title: &str,
    paper_type: &str,
    author: &str,
    gremien: Vec<String>,
    none: Vec<String>,
    dsnr: &str,
    bodies: String,
    results: (String, String, String, String, String),
)
    requires
        none@.len() == 0,
        gremien@.len() > 0,
        call_ensures(join, (&gremien, " | "), bodies),
        call_ensures(write_notification, (title, None, None, &none, None), results.0),
        call_ensures(write_notification, (title, Some(paper_type), None, &none, None), results.1),
        call_ensures(
            write_notification,
            (title, Some(paper_type), Some(author), &none, None),
            results.2,
        ),
        call_ensures(
            write_notification,
            (title, Some(paper_type), Some(author), &gremien, None),
            results.3,
        ),
        call_ensures(
            write_notification,
            (title, Some(paper_type), Some(author), &gremien, Some(dsnr)),
            results.4,
        ),
    ensures
        results.1@ == results.0@ + "\n📌 "@ + html_escaped(paper_type@),
        results.2@ == results.1@ + "\n👤 "@ + html_escaped(author@),
        results.3@ == results.2@ + "\n🏛\u{fe0f} "@ + html_escaped(bodies@),
        results.4@ == results.3@ + "\n📎 Ds.-Nr. "@ + html_escaped(dsnr@),
{
    assert(results.1@ =~= results.0@ + "\n📌 "@ + html_escaped(paper_type@));
    assert(results.2@ =~= results.1@ + "\n👤 "@ + html_escaped(author@));
    assert(results.3@ =~= results.2@ + "\n🏛\u{fe0f} "@ + html_escaped(bodies@));
    assert(results.4@ =~= results.3@ + "\n📎 Ds.-Nr. "@ + html_escaped(dsnr@));
}

/// What is not known of a document leaves no trace in its notification.
pub proof fn law_unknown_lines_are_left_out(
    title: &str,
    paper_type: Option<&str>,
    author: Option<&str>,
    gremien: Vec<String>,
    none: Vec<String>,
    dsnr: Option<&str>,
    results: (String, String, String, String, String),
)
    requires
        none@.len() == 0,
        call_ensures(write_notification, (title, paper_type, author, &gremien, dsnr), results.0),
        call_ensures(write_notification, (title, paper_type, None, &none, None), results.1),
        call_ensures(write_notification, (title, None, author, &none, None), results.2),
        call_ensures(write_notification, (title, None, None, &gremien, None), results.3),
        call_ensures(write_notification, (title, None, None, &none, dsnr), results.4),
    ensures
        ({
            let start = title@.len() as int + 8;
            results.0@ == results.1@ + results.2@.skip(start) + results.3@.skip(start)
                + results.4@.skip(start)
        }),
{
    reveal_strlit("<b>");
    reveal_strlit("</b>");
    reveal_strlit("\n");
    let start = title@.len() as int + 8;
    let type_line = line(TYPE_LINE@, opt_text(paper_type));
    let author_line = line(AUTHOR_LINE@, opt_text(author));
    let bodies = if gremien@.len() == 0 {
        None
    } else {
        Some(joined(string_views(gremien@), " | "@))
    };
    let bodies_line = line(BODIES_LINE@, bodies);
    let number_line = line(NUMBER_LINE@, opt_text(dsnr));
    assert(results.1@ =~= "<b>"@ + title@ + "</b>"@ + "\n"@ + type_line);
    assert(results.2@.skip(start) =~= author_line);
    assert(results.3@.skip(start) =~= bodies_line);
    assert(results.4@.skip(start) =~= number_line);
    assert(results.0@ =~= "<b>"@ + title@ + "</b>"@ + "\n"@ + type_line + author_line + bodies_line
        + number_line);
}

/// Escaping replaces one character after the other: ampersands and angle
/// brackets by their entities, and no other.
pub proof fn law_escaping_goes_by_characters(s: Seq<char>, c: char)
    ensures
        html_escaped(Seq::empty()) == Seq::<char>::empty(),
        html_escaped(s.push(c)) == html_escaped(s) + if c == '&' {
            seq!['&', 'a', 'm', 'p', ';']
        } else if c == '<' {
            seq!['&', 'l', 't', ';']
        } else if c == '>' {
            seq!['&', 'g', 't', ';']
        } else {
            seq![c]
        },
{
    reveal_strlit("&amp;");
    reveal_strlit("&lt;");
    reveal_strlit("&gt;");
    assert(s.push(c).drop_last() =~= s);
    assert("&amp;"@ =~= seq!['&', 'a', 'm', 'p', ';']);
    assert("&lt;"@ =~= seq!['&', 'l', 't', ';']);
    assert("&gt;"@ =~= seq!['&', 'g', 't', ';']);
    assert(html_escaped(s).push(c) =~= html_escaped(s) + seq![c]);
}

/// A document carries exactly the tags that its data give: its number, its type,
/// all who support it, the leading office, which is an involved one too, the
/// other involved offices, and all bodies that discuss it.
pub proof fn law_tags_come_from_the_data(
    paper: &Paper,
    data: &WebsiteData,
    r: Vec<(Tag, String)>,
    tag: Tag,
    value: Seq<char>,
)
    requires
        call_ensures(generate_tags, (paper, data), r),
    ensures
        (exists|i: int|
            0 <= i < r@.len() && (#[trigger] r@[i]).0 == tag && r@[i].1@ == value) <==> match tag {
            Tag::Dsnr => paper.reference is Some && paper.reference->0@ == value,
            Tag::Art => paper.paper_type is Some && paper.paper_type->0@ == value,
            Tag::Verfasser => exists|i: int|
                0 <= i < data.unterstuetzer@.len() && (#[trigger] data.unterstuetzer@[i])@ == value,
            Tag::Federfuehrend => data.amt is Some && data.amt->0@ == value,
            Tag::Beteiligt => (data.amt is Some && data.amt->0@ == value) || exists|i: int|
                0 <= i < data.beteiligt@.len() && (#[trigger] data.beteiligt@[i])@ == value,
            Tag::Gremium => exists|i: int|
                0 <= i < data.gremien@.len() && (#[trigger] data.gremien@[i])@ == value,
        },
{
    let all = tag_values(r@);
    let a = tagged_opt(Tag::Dsnr, opt_string(paper.reference));
    let b = tagged_opt(Tag::Art, opt_string(paper.paper_type));
    let c = tagged(Tag::Verfasser, data@.unterstuetzer);
    let d = tagged_opt(Tag::Federfuehrend, data@.amt);
    let e = tagged_opt(Tag::Beteiligt, data@.amt);
    let f = tagged(Tag::Beteiligt, data@.beteiligt);
    let g = tagged(Tag::Gremium, data@.gremien);
    assert(all == a + b + c + d + e + f + g);
    let (lb, lc, ld, le, lf, lg) = (
        a.len() as int,
        (a + b).len() as int,
        (a + b + c).len() as int,
        (a + b + c + d).len() as int,
        (a + b + c + d + e).len() as int,
        (a + b + c + d + e + f).len() as int,
    );
    if exists|i: int| 0 <= i < r@.len() && (#[trigger] r@[i]).0 == tag && r@[i].1@ == value {
        let i = choose|i: int|
            0 <= i < r@.len() && (#[trigger] r@[i]).0 == tag && r@[i].1@ == value;
        assert(all[i] == (tag, value));
        if i < lb {
            assert(all[i] == a[i]);
        } else if i < lc {
            assert(all[i] == b[i - lb]);
        } else if i < ld {
            assert(all[i] == c[i - lc]);
            assert(data.unterstuetzer@[i - lc]@ == value);
        } else if i < le {
            assert(all[i] == d[i - ld]);
        } else if i < lf {
            assert(all[i] == e[i - le]);
        } else if i < lg {
            assert(all[i] == f[i - lf]);
            assert(data.beteiligt@[i - lf]@ == value);
        } else {
            assert(all[i] == g[i - lg]);
            assert(data.gremien@[i - lg]@ == value);
        }
    }
    match tag {
        Tag::Dsnr => {
            if paper.reference is Some && paper.reference->0@ == value {
                assert(all[0] == (tag, value));
                assert(r@[0].0 == tag);
            }
        },
        Tag::Art => {
            if paper.paper_type is Some && paper.paper_type->0@ == value {
                assert(all[lb] == b[0]);
                assert(r@[lb].0 == tag);
            }
        },
        Tag::Verfasser => {
            if exists|i: int|
                0 <= i < data.unterstuetzer@.len() && (#[trigger] data.unterstuetzer@[i])@
                    == value {
                let i = choose|i: int|
                    0 <= i < data.unterstuetzer@.len() && (#[trigger] data.unterstuetzer@[i])@
                        == value;
                assert(all[lc + i] == c[i]);
                assert(r@[lc + i].0 == tag);
            }
        },
        Tag::Federfuehrend => {
            if data.amt is Some && data.amt->0@ == value {
                assert(all[ld] == d[0]);
                assert(r@[ld].0 == tag);
            }
        },
        Tag::Beteiligt => {
            if data.amt is Some && data.amt->0@ == value {
                assert(all[le] == e[0]);
                assert(r@[le].0 == tag);
            }
            if exists|i: int|
                0 <= i < data.beteiligt@.len() && (#[trigger] data.beteiligt@[i])@ == value {
                let i = choose|i: int|
                    0 <= i < data.beteiligt@.len() && (#[trigger] data.beteiligt@[i])@ == value;
                assert(all[lf + i] == f[i]);
                assert(r@[lf + i].0 == tag);
            }
        },
        Tag::Gremium => {
            if exists|i: int|
                0 <= i < data.gremien@.len() && (#[trigger] data.gremien@[i])@ == value {
                let i = choose|i: int|
                    0 <= i < data.gremien@.len() && (#[trigger] data.gremien@[i])@ == value;
                assert(all[lg + i] == g[i]);
                assert(r@[lg + i].0 == tag);
            }
        },
    }
}

/// The links below a notification lead to the page and to the file, the page
/// first, and there is none for what there is not.
pub proof fn law_links_lead_to_page_and_file(
    page: Option<&str>,
    file: Option<&str>,
    r: Vec<LinkButton>,
)
    requires
        call_ensures(link_buttons, (page, file), r),
    ensures
        r@.len() == (if page is Some {
            1int
        } else {
            0
        }) + (if file is Some {
            1int
        } else {
            0
        }),
        page is Some ==> r@[0].url@ == page->0@ && r@[0].text@ == "🌐 Allris"@,
        file is Some ==> r@.last().url@ == file->0@ && r@.last().text@ == "📄 PDF"@,
{
    let said = button_texts(r@);
    assert(said.len() == r@.len());
    if page is Some {
        assert(said[0] == (r@[0].text@, r@[0].url@));
    }
    if file is Some {
        let i = r@.len() - 1;
        assert(said[i] == (r@[i].text@, r@[i].url@));
    }
}

/// A document is announced exactly if it has a title and a page and was not
/// discussed already. The announcement is made of the document's own title,
/// author, bodies, number, links and tags.
pub proof fn law_announcement_is_complete(
    paper: &Paper,
    data: &WebsiteData,
    r: Option<Message>,
    parts: (Option<&str>, Option<&str>, Option<&str>, Option<&str>),
    title: &str,
    page: &str,
    file: Option<&str>,
    author: Option<&str>,
    text: String,
    buttons: Vec<LinkButton>,
    tags: Vec<(Tag, String)>,
)
    requires
        call_ensures(generate_notification, (paper, data), r),
        opt_text(parts.0) == opt_string(paper.paper_type),
        opt_text(parts.1) == opt_string(data.verfasser),
        opt_text(parts.2) == opt_string(data.amt),
        opt_text(parts.3) == opt_string(paper.reference),
        paper.web is Some ==> page@ == paper.web->0@,
        opt_text(file) == opt_string(paper.main_file),
        call_ensures(choose_author, (parts.0, parts.1, parts.2, true), author),
        paper.name is Some ==> title@ == paper.name->0@,
        call_ensures(write_notification, (title, parts.0, author, &data.gremien, parts.3), text),
        call_ensures(link_buttons, (Some(page), file), buttons),
        call_ensures(generate_tags, (paper, data), tags),
    ensures
        r is Some <==> paper.name is Some && paper.web is Some && !data.already_discussed,
        r matches Some(m) ==> {
            &&& m.text@ == text@
            &&& m.buttons@.len() == buttons@.len()
            &&& m.tags@.len() == tags@.len()
            &&& forall|i: int|
                0 <= i < buttons@.len() ==> (#[trigger] m.buttons@[i]).text@ == buttons@[i].text@
                    && m.buttons@[i].url@ == buttons@[i].url@
            &&& forall|i: int|
                0 <= i < tags@.len() ==> (#[trigger] m.tags@[i]).0 == tags@[i].0 && m.tags@[i].1@
                    == tags@[i].1@
        },
{
    if let Some(m) = r {
        let said = button_texts(m.buttons@);
        assert(said == button_texts(buttons@));
        assert(said.len() == m.buttons@.len() && said.len() == buttons@.len());
        assert forall|i: int| 0 <= i < buttons@.len() implies (#[trigger] m.buttons@[i]).text@
            == buttons@[i].text@ && m.buttons@[i].url@ == buttons@[i].url@ by {
            assert(said[i] == (m.buttons@[i].text@, m.buttons@[i].url@));
            assert(said[i] == (buttons@[i].text@, buttons@[i].url@));
        }
        let values = tag_values(m.tags@);
        assert(values == tag_values(tags@));
        assert(values.len() == m.tags@.len() && values.len() == tags@.len());
        assert forall|i: int| 0 <= i < tags@.len() implies (#[trigger] m.tags@[i]).0 == tags@[i].0
            && m.tags@[i].1@ == tags@[i].1@ by {
            assert(values[i] == (m.tags@[i].0, m.tags@[i].1@));
            assert(values[i] == (tags@[i].0, tags@[i].1@));
        }
    }
}

/// No tag is given more often than the data give it.
pub proof fn law_tags_are_given_once(paper: &Paper, data: &WebsiteData, r: Vec<(Tag, String)>)
    requires
        call_ensures(generate_tags, (paper, data), r),
    ensures
        r@.len() == (if paper.reference is Some {
            1int
        } else {
            0
        }) + (if paper.paper_type is Some {
            1int
        } else {
            0
        }) + (if data.amt is Some {
            2int
        } else {
            0
        }) + data.unterstuetzer@.len() + data.beteiligt@.len() + data.gremien@.len(),
{
    assert(tag_values(r@).len() == r@.len());
    assert(data@.unterstuetzer.len() == data.unterstuetzer@.len());
    assert(data@.beteiligt.len() == data.beteiligt@.len());
    assert(data@.gremien.len() == data.gremien@.len());
}

} // verus!
