//! What is read off a document's page.

use scraper::{Html, Selector};
use vstd::prelude::*;
use vstd::string::*;

use super::url::join as join_url;
use crate::text::{join, same_text, split, trim};

verus! {

use super::url::url_joined;
use crate::text::{joined, opt_string, split_parts, string_views, trimmed};

pub const GREMIEN_SELECTOR: &'static str =
    "#bfTable > table > tbody > tr > td:not(.date) + td:nth-of-type(3)";

pub const BETEILIGT_SELECTOR: &'static str = "#vobamt";

pub const DISCUSSED_SELECTOR: &'static str = "#bfTable .toLink a";

pub const VERFASSER_SELECTOR: &'static str = "#voverfasser1";

pub const UNTERSTUETZER_SELECTOR: &'static str = "#anunterstuetzer";

pub const AMT_SELECTOR: &'static str = "#vofamt";

pub const ART_SELECTOR: &'static str = "#voart";

pub const DOKUMENTE_SELECTOR: &'static str = "#dokumenteHeaderPanel a";

pub const SAMMELDOKUMENT: &'static str = "Sammeldokument";

/// Longer pages are not read. [`Html`] keeps texts in buffers that can hold four
/// gibibytes, and panics when one outgrows them. No character takes more than
/// four bytes there, and a buffer grows to the next power of two.
pub const MAX_PAGE_CHARS: usize = 268_435_456;

/// Longer selectors are not used, as deeply nested ones exhaust the stack.
pub const MAX_SELECTOR_CHARS: usize = 1000;

/// The elements of a page that a selector selects: the texts within each, as
/// [`scraper`] gives them in the order of the page. The sequence is empty if the
/// selector is invalid.
pub uninterp spec fn selected_texts(html: Seq<char>, selector: Seq<char>) -> Seq<Seq<Seq<char>>>;

/// The elements of a page that a selector selects: the value of an attribute
/// of each, as [`scraper`] gives it in the order of the page. The sequence is
/// empty if the selector is invalid.
pub uninterp spec fn selected_attributes(
    html: Seq<char>,
    selector: Seq<char>,
    attribute: Seq<char>,
) -> Seq<Option<Seq<char>>>;

/// What texts within elements say.
pub open spec fn element_views(elements: Seq<Vec<String>>) -> Seq<Seq<Seq<char>>> {
    elements.map_values(|e: Vec<String>| string_views(e@))
}

/// What values of attributes say.
pub open spec fn attribute_views(values: Seq<Option<String>>) -> Seq<Option<Seq<char>>> {
    values.map_values(|v: Option<String>| opt_string(v))
}

/// [`Html::parse_document`], [`Html::select`] and the texts of each element:
/// they depend on page and selector alone.
#[verifier::external_body]
fn select_texts(html: &str, selector: &str) -> (r: Vec<Vec<String>>)
    requires
        html@.len() <= MAX_PAGE_CHARS,
        selector@.len() <= MAX_SELECTOR_CHARS,
    ensures
        element_views(r@) == selected_texts(html@, selector@),
{
    let document = Html::parse_document(html);
    Selector::parse(selector)
        .map(|s| document.select(&s).map(|el| el.text().map(str::to_owned).collect()).collect())
        .unwrap_or_default()
}

/// [`Html::parse_document`], [`Html::select`] and an attribute of each element:
/// they depend on page, selector and attribute alone.
#[verifier::external_body]
fn select_attributes(html: &str, selector: &str, attribute: &str) -> (r: Vec<Option<String>>)
    requires
        html@.len() <= MAX_PAGE_CHARS,
        selector@.len() <= MAX_SELECTOR_CHARS,
    ensures
        attribute_views(r@) == selected_attributes(html@, selector@, attribute@),
{
    let document = Html::parse_document(html);
    Selector::parse(selector)
        .map(|s| document.select(&s).map(|el| el.attr(attribute).map(str::to_owned)).collect())
        .unwrap_or_default()
}

/// The text of an element, without white space around it.
pub open spec fn element_text(texts: Seq<Seq<char>>) -> Seq<char> {
    trimmed(joined(texts, ""@))
}

/// The text of an element, without white space around it.
pub fn extract_text(texts: &Vec<String>) -> (r: String)
    ensures
        r@ == element_text(string_views(texts@)),
{
    let all = join(texts, "");
    trim(all.as_str()).to_owned()
}

/// The texts of elements that are not empty.
pub open spec fn nonempty_texts(elements: Seq<Seq<Seq<char>>>) -> Seq<Seq<char>>
    decreases elements.len(),
{
    if elements.len() == 0 {
        Seq::empty()
    } else {
        let rest = nonempty_texts(elements.drop_last());
        let text = element_text(elements.last());
        if text.len() == 0 {
            rest
        } else {
            rest.push(text)
        }
    }
}

/// The texts of elements that are not empty.
pub fn nonempty(elements: &Vec<Vec<String>>) -> (r: Vec<String>)
    ensures
        string_views(r@) == nonempty_texts(element_views(elements@)),
{
    let ghost all = element_views(elements@);
    let mut r: Vec<String> = Vec::new();
    let mut i: usize = 0;
    assert(string_views(r@) =~= nonempty_texts(all.take(0)));
    while i < elements.len()
        invariant
            i <= elements@.len(),
            all == element_views(elements@),
            string_views(r@) == nonempty_texts(all.take(i as int)),
        decreases elements@.len() - i,
    {
        let ghost shown = all.take(i + 1);
        let ghost before = string_views(r@);
        assert(shown.drop_last() =~= all.take(i as int));
        assert(shown.last() == string_views(elements@[i as int]@));
        let text = extract_text(&elements[i]);
        let ghost said = text@;
        if text.as_str().unicode_len() != 0 {
            r.push(text);
            assert(string_views(r@) =~= before.push(said));
        }
        i = i + 1;
    }
    assert(all.take(all.len() as int) =~= all);
    r
}

/// The text of the first element.
pub open spec fn first_text(elements: Seq<Seq<Seq<char>>>) -> Option<Seq<char>> {
    if elements.len() > 0 {
        Some(element_text(elements[0]))
    } else {
        None
    }
}

/// The text of the first element.
pub fn first(elements: &Vec<Vec<String>>) -> (r: Option<String>)
    ensures
        opt_string(r) == first_text(element_views(elements@)),
{
    if elements.len() > 0 {
        assert(element_views(elements@)[0] == string_views(elements@[0]@));
        Some(extract_text(&elements[0]))
    } else {
        None
    }
}

/// Texts without white space around each.
pub open spec fn all_trimmed(texts: Seq<Seq<char>>) -> Seq<Seq<char>> {
    texts.map_values(|t: Seq<char>| trimmed(t))
}

/// The parts of the first element's text between semicolons.
pub open spec fn first_list(elements: Seq<Seq<Seq<char>>>) -> Seq<Seq<char>> {
    if elements.len() > 0 {
        all_trimmed(split_parts(element_text(elements[0]), ';'))
    } else {
        Seq::empty()
    }
}

/// The parts of the first element's text between semicolons.
pub fn list(elements: &Vec<Vec<String>>) -> (r: Vec<String>)
    ensures
        string_views(r@) == first_list(element_views(elements@)),
{
    let mut r: Vec<String> = Vec::new();
    if elements.len() == 0 {
        assert(string_views(r@) =~= Seq::<Seq<char>>::empty());
        return r;
    }
    assert(element_views(elements@)[0] == string_views(elements@[0]@));
    let text = extract_text(&elements[0]);
    let parts = split(text.as_str(), ';');
    let ghost all = parts@.map_values(|t: &str| t@);
    let mut i: usize = 0;
    assert(string_views(r@) =~= all_trimmed(all.take(0)));
    while i < parts.len()
        invariant
            i <= parts@.len(),
            all == parts@.map_values(|t: &str| t@),
            string_views(r@) == all_trimmed(all.take(i as int)),
        decreases parts@.len() - i,
    {
        let ghost before = string_views(r@);
        let part = trim(parts[i]).to_owned();
        assert(part@ == trimmed(all[i as int]));
        r.push(part);
        assert(string_views(r@) =~= before.push(trimmed(all[i as int])));
        assert(all_trimmed(all.take(i + 1)) =~= all_trimmed(all.take(i as int)).push(
            trimmed(all[i as int]),
        ));
        i = i + 1;
    }
    assert(all.take(all.len() as int) =~= all);
    r
}

/// The texts within the first element, without white space around each.
pub open spec fn first_lines(elements: Seq<Seq<Seq<char>>>) -> Seq<Seq<char>> {
    if elements.len() > 0 {
        all_trimmed(elements[0])
    } else {
        Seq::empty()
    }
}

/// The texts within the first element, without white space around each.
pub fn lines(elements: &Vec<Vec<String>>) -> (r: Vec<String>)
    ensures
        string_views(r@) == first_lines(element_views(elements@)),
{
    let mut r: Vec<String> = Vec::new();
    if elements.len() == 0 {
        assert(string_views(r@) =~= Seq::<Seq<char>>::empty());
        return r;
    }
    let ghost all = string_views(elements@[0]@);
    assert(element_views(elements@)[0] == all);
    let texts = &elements[0];
    let mut i: usize = 0;
    assert(string_views(r@) =~= all_trimmed(all.take(0)));
    while i < texts.len()
        invariant
            i <= texts@.len(),
            all == string_views(texts@),
            string_views(r@) == all_trimmed(all.take(i as int)),
        decreases texts@.len() - i,
    {
        let ghost before = string_views(r@);
        let text = trim(texts[i].as_str()).to_owned();
        assert(text@ == trimmed(all[i as int]));
        r.push(text);
        assert(string_views(r@) =~= before.push(trimmed(all[i as int])));
        assert(all_trimmed(all.take(i + 1)) =~= all_trimmed(all.take(i as int)).push(
            trimmed(all[i as int]),
        ));
        i = i + 1;
    }
    assert(all.take(all.len() as int) =~= all);
    r
}

/// What is known of a document from its page.
#[derive(Debug, PartialEq, Eq)]
pub struct WebsiteData {
    pub art: Option<String>,
    pub verfasser: Option<String>,
    pub unterstuetzer: Vec<String>,
    pub amt: Option<String>,
    pub beteiligt: Vec<String>,
    pub gremien: Vec<String>,
    pub sammeldokument: Option<String>,
    pub already_discussed: bool,
}

/// What is known of a document from its page.
#[verifier::ext_equal]
pub struct WebsiteView {
    pub art: Option<Seq<char>>,
    pub verfasser: Option<Seq<char>>,
    pub unterstuetzer: Seq<Seq<char>>,
    pub amt: Option<Seq<char>>,
    pub beteiligt: Seq<Seq<char>>,
    pub gremien: Seq<Seq<char>>,
    pub sammeldokument: Option<Seq<char>>,
    pub already_discussed: bool,
}

impl View for WebsiteData {
    type V = WebsiteView;

    open spec fn view(&self) -> WebsiteView {
        WebsiteView {
            art: opt_string(self.art),
            verfasser: opt_string(self.verfasser),
            unterstuetzer: string_views(self.unterstuetzer@),
            amt: opt_string(self.amt),
            beteiligt: string_views(self.beteiligt@),
            gremien: string_views(self.gremien@),
            sammeldokument: opt_string(self.sammeldokument),
            already_discussed: self.already_discussed,
        }
    }
}

/// Nothing is known of a document.
pub open spec fn nothing_known() -> WebsiteView {
    WebsiteView {
        art: None,
        verfasser: None,
        unterstuetzer: Seq::empty(),
        amt: None,
        beteiligt: Seq::empty(),
        gremien: Seq::empty(),
        sammeldokument: None,
        already_discussed: false,
    }
}

impl Default for WebsiteData {
    fn default() -> (r: Self)
        ensures
            r@ == nothing_known(),
    {
        let r = WebsiteData {
            art: None,
            verfasser: None,
            unterstuetzer: Vec::new(),
            amt: None,
            beteiligt: Vec::new(),
            gremien: Vec::new(),
            sammeldokument: None,
            already_discussed: false,
        };
        assert(r@ =~= nothing_known());
        r
    }
}

/// What the selectors select on a page.
pub struct Selections {
    pub art: Vec<Vec<String>>,
    pub verfasser: Vec<Vec<String>>,
    pub unterstuetzer: Vec<Vec<String>>,
    pub amt: Vec<Vec<String>>,
    pub beteiligt: Vec<Vec<String>>,
    pub gremien: Vec<Vec<String>>,
    pub discussed: Vec<Vec<String>>,
    pub documents: Vec<Vec<String>>,
    pub document_links: Vec<Option<String>>,
}

/// What the selectors select on a page.
pub struct SelectionsView {
    pub art: Seq<Seq<Seq<char>>>,
    pub verfasser: Seq<Seq<Seq<char>>>,
    pub unterstuetzer: Seq<Seq<Seq<char>>>,
    pub amt: Seq<Seq<Seq<char>>>,
    pub beteiligt: Seq<Seq<Seq<char>>>,
    pub gremien: Seq<Seq<Seq<char>>>,
    pub discussed: Seq<Seq<Seq<char>>>,
    pub documents: Seq<Seq<Seq<char>>>,
    pub document_links: Seq<Option<Seq<char>>>,
}

impl View for Selections {
    type V = SelectionsView;

    open spec fn view(&self) -> SelectionsView {
        SelectionsView {
            art: element_views(self.art@),
            verfasser: element_views(self.verfasser@),
            unterstuetzer: element_views(self.unterstuetzer@),
            amt: element_views(self.amt@),
            beteiligt: element_views(self.beteiligt@),
            gremien: element_views(self.gremien@),
            discussed: element_views(self.discussed@),
            documents: element_views(self.documents@),
            document_links: attribute_views(self.document_links@),
        }
    }
}

/// What the selectors select on a given page.
pub open spec fn selections_of(html: Seq<char>) -> SelectionsView {
    SelectionsView {
        art: selected_texts(html, ART_SELECTOR@),
        verfasser: selected_texts(html, VERFASSER_SELECTOR@),
        unterstuetzer: selected_texts(html, UNTERSTUETZER_SELECTOR@),
        amt: selected_texts(html, AMT_SELECTOR@),
        beteiligt: selected_texts(html, BETEILIGT_SELECTOR@),
        gremien: selected_texts(html, GREMIEN_SELECTOR@),
        discussed: selected_texts(html, DISCUSSED_SELECTOR@),
        documents: selected_texts(html, DOKUMENTE_SELECTOR@),
        document_links: selected_attributes(html, DOKUMENTE_SELECTOR@, "href"@),
    }
}

/// The link of the first document whose text starts as the collected document
/// does.
pub open spec fn collected_link(
    documents: Seq<Seq<Seq<char>>>,
    links: Seq<Option<Seq<char>>>,
) -> Option<Seq<char>>
    decreases documents.len(),
{
    if documents.len() == 0 || links.len() == 0 {
        None
    } else if documents[0].len() > 0 && documents[0][0] == SAMMELDOKUMENT@ {
        links[0]
    } else {
        collected_link(documents.skip(1), links.skip(1))
    }
}

/// Finds the link of the collected document.
pub fn find_collected(documents: &Vec<Vec<String>>, links: &Vec<Option<String>>) -> (r: Option<
    String,
>)
    ensures
        opt_string(r) == collected_link(element_views(documents@), attribute_views(links@)),
{
    let ghost docs = element_views(documents@);
    let ghost hrefs = attribute_views(links@);
    let mut i: usize = 0;
    assert(docs.skip(0) =~= docs);
    assert(hrefs.skip(0) =~= hrefs);
    while i < documents.len() && i < links.len()
        invariant
            i <= documents@.len(),
            i <= links@.len(),
            docs == element_views(documents@),
            hrefs == attribute_views(links@),
            collected_link(docs, hrefs) == collected_link(
                docs.skip(i as int),
                hrefs.skip(i as int),
            ),
        decreases documents@.len() - i,
    {
        let ghost rest = docs.skip(i as int);
        let ghost rest_links = hrefs.skip(i as int);
        assert(rest[0] == string_views(documents@[i as int]@));
        assert(rest_links[0] == opt_string(links@[i as int]));
        assert(rest.skip(1) =~= docs.skip(i + 1));
        assert(rest_links.skip(1) =~= hrefs.skip(i + 1));
        let texts = &documents[i];
        if texts.len() > 0 {
            assert(rest[0][0] == texts@[0]@);
            if same_text(texts[0].as_str(), SAMMELDOKUMENT) {
                return links[i].clone();
            }
        }
        i = i + 1;
    }
    None
}

/// What is read off a page, given what the selectors select. The link of the
/// collected document is given as it stands on the page.
pub open spec fn data_of(s: SelectionsView, sammeldokument: Option<Seq<char>>) -> WebsiteView {
    WebsiteView {
        art: first_text(s.art),
        verfasser: first_text(s.verfasser),
        unterstuetzer: first_lines(s.unterstuetzer),
        amt: first_text(s.amt),
        beteiligt: first_list(s.beteiligt),
        gremien: nonempty_texts(s.gremien),
        sammeldokument,
        already_discussed: s.discussed.len() > 0,
    }
}

/// Reads a page, given what the selectors select and the address of the
/// collected document.
pub fn website_data(s: &Selections, sammeldokument: Option<String>) -> (r: WebsiteData)
    ensures
        r@ == data_of(s@, opt_string(sammeldokument)),
{
    WebsiteData {
        art: first(&s.art),
        verfasser: first(&s.verfasser),
        unterstuetzer: lines(&s.unterstuetzer),
        amt: first(&s.amt),
        beteiligt: list(&s.beteiligt),
        gremien: nonempty(&s.gremien),
        sammeldokument,
        already_discussed: s.discussed.len() > 0,
    }
}

/// The address of the collected document of a page.
pub open spec fn collected_url(s: SelectionsView, url: Seq<char>) -> Option<Seq<char>> {
    match collected_link(s.documents, s.document_links) {
        Some(href) => url_joined(url, href),
        None => None,
    }
}

/// Reads the page of a document with a given address, unless the page is too
/// long.
pub fn scrape(html: &str, url: &str) -> (r: Option<WebsiteData>)
    ensures
        match r {
            Some(data) => {
                &&& html@.len() <= MAX_PAGE_CHARS
                &&& data@ == data_of(
                    selections_of(html@),
                    collected_url(selections_of(html@), url@),
                )
            },
            None => html@.len() > MAX_PAGE_CHARS,
        },
{
    if html.unicode_len() > MAX_PAGE_CHARS {
        return None;
    }
    proof {
        reveal_strlit("#bfTable > table > tbody > tr > td:not(.date) + td:nth-of-type(3)");
        reveal_strlit("#vobamt");
        reveal_strlit("#bfTable .toLink a");
        reveal_strlit("#voverfasser1");
        reveal_strlit("#anunterstuetzer");
        reveal_strlit("#vofamt");
        reveal_strlit("#voart");
        reveal_strlit("#dokumenteHeaderPanel a");
    }
    let s = Selections {
        art: select_texts(html, ART_SELECTOR),
        verfasser: select_texts(html, VERFASSER_SELECTOR),
        unterstuetzer: select_texts(html, UNTERSTUETZER_SELECTOR),
        amt: select_texts(html, AMT_SELECTOR),
        beteiligt: select_texts(html, BETEILIGT_SELECTOR),
        gremien: select_texts(html, GREMIEN_SELECTOR),
        discussed: select_texts(html, DISCUSSED_SELECTOR),
        documents: select_texts(html, DOKUMENTE_SELECTOR),
        document_links: select_attributes(html, DOKUMENTE_SELECTOR, "href"),
    };
    let sammeldokument = match find_collected(&s.documents, &s.document_links) {
        Some(href) => join_url(url, href.as_str()),
        None => None,
    };
    Some(website_data(&s, sammeldokument))
}

/// The text of an element is what stands in it, put together and trimmed.
pub proof fn law_element_text_is_trimmed(
    texts: Vec<String>,
    r: String,
    all: String,
    whole: &str,
    trimmed: &str,
)
    requires
        call_ensures(extract_text, (&texts,), r),
        call_ensures(join, (&texts, ""), all),
        whole@ == all@,
        call_ensures(trim, (whole,), trimmed),
    ensures
        r@ == trimmed@,
{
}

/// A further element adds its text to the list, unless it is empty.
pub proof fn law_nonempty_texts_are_kept(
    less: Vec<Vec<String>>,
    last: Vec<String>,
    more: Vec<Vec<String>>,
    r: Vec<String>,
    longer: Vec<String>,
    text: String,
)
    requires
        more@ == less@.push(last),
        call_ensures(nonempty, (&less,), r),
        call_ensures(nonempty, (&more,), longer),
        call_ensures(extract_text, (&last,), text),
    ensures
        less@.len() == 0 ==> r@.len() == 0,
        text@.len() == 0 ==> string_views(longer@) == string_views(r@),
        text@.len() > 0 ==> string_views(longer@) == string_views(r@).push(text@),
{
    let all = element_views(more@);
    assert(all.drop_last() =~= element_views(less@));
    assert(all.last() == string_views(last@));
    assert(string_views(r@).len() == r@.len());
}

/// The first element counts, and no other.
pub proof fn law_first_element_counts(
    elements: Vec<Vec<String>>,
    one: Option<String>,
    text: String,
    parts: Vec<String>,
    within: Vec<String>,
)
    requires
        call_ensures(first, (&elements,), one),
        call_ensures(list, (&elements,), parts),
        call_ensures(lines, (&elements,), within),
        elements@.len() > 0 ==> call_ensures(extract_text, (&elements@[0],), text),
    ensures
        one is None <==> elements@.len() == 0,
        elements@.len() == 0 ==> parts@.len() == 0 && within@.len() == 0,
        elements@.len() > 0 ==> one->0@ == text@,
        elements@.len() > 0 ==> parts@.len() > 0,
        elements@.len() > 0 ==> within@.len() == elements@[0]@.len(),
{
    let all = element_views(elements@);
    assert(string_views(parts@).len() == parts@.len());
    assert(string_views(within@).len() == within@.len());
    if elements@.len() > 0 {
        assert(all[0] == string_views(elements@[0]@));
        assert(string_views(elements@[0]@).len() == elements@[0]@.len());
        crate::text::lemma_split_parts(element_text(all[0]), ';');
    }
}

/// A list is the first element's text, split at semicolons, with each part
/// trimmed.
pub proof fn law_list_is_split_at_semicolons(
    elements: Vec<Vec<String>>,
    r: Vec<String>,
    text: String,
    whole: &str,
    parts: Vec<&str>,
    i: int,
    part: &str,
)
    requires
        elements@.len() > 0,
        call_ensures(list, (&elements,), r),
        call_ensures(extract_text, (&elements@[0],), text),
        whole@ == text@,
        call_ensures(split, (whole, ';'), parts),
        0 <= i < parts@.len(),
        call_ensures(trim, (parts@[i],), part),
    ensures
        r@.len() == parts@.len(),
        r@[i]@ == part@,
{
    assert(element_views(elements@)[0] == string_views(elements@[0]@));
    let all = parts@.map_values(|t: &str| t@);
    let views = string_views(r@);
    assert(views == all_trimmed(all));
    assert(views.len() == r@.len());
    assert(views[i] == r@[i]@);
    assert(all[i] == parts@[i]@);
}

/// The texts within the first element are all kept, each of them trimmed.
pub proof fn law_texts_within_are_trimmed(
    elements: Vec<Vec<String>>,
    r: Vec<String>,
    i: int,
    text: &str,
    trimmed: &str,
)
    requires
        elements@.len() > 0,
        call_ensures(lines, (&elements,), r),
        0 <= i < elements@[0]@.len(),
        text@ == elements@[0]@[i]@,
        call_ensures(trim, (text,), trimmed),
    ensures
        r@.len() == elements@[0]@.len(),
        r@[i]@ == trimmed@,
{
    let all = string_views(elements@[0]@);
    assert(element_views(elements@)[0] == all);
    let views = string_views(r@);
    assert(views == all_trimmed(all));
    assert(views.len() == r@.len());
    assert(views[i] == r@[i]@);
    assert(all[i] == text@);
}

/// The collected document is the first whose text starts with its name.
pub proof fn law_collected_document_is_found(
    documents: Vec<Vec<String>>,
    links: Vec<Option<String>>,
    r: Option<String>,
    i: int,
)
    requires
        documents@.len() == links@.len(),
        call_ensures(find_collected, (&documents, &links), r),
        0 <= i <= documents@.len(),
        forall|j: int|
            0 <= j < i ==> !((#[trigger] documents@[j])@.len() > 0 && documents@[j]@[0]@
                == "Sammeldokument"@),
        i < documents@.len() ==> documents@[i]@.len() > 0 && documents@[i]@[0]@
            == "Sammeldokument"@,
    ensures
        i == documents@.len() ==> r is None,
        i < documents@.len() ==> opt_string(r) == opt_string(links@[i]),
{
    let docs = element_views(documents@);
    let hrefs = attribute_views(links@);
    assert forall|j: int| 0 <= j < i implies !((#[trigger] docs[j]).len() > 0 && docs[j][0]
        == SAMMELDOKUMENT@) by {
        assert(docs[j] == string_views(documents@[j]@));
        if documents@[j]@.len() > 0 {
            assert(docs[j][0] == documents@[j]@[0]@);
        }
    }
    if i < documents@.len() {
        assert(docs[i] == string_views(documents@[i]@));
        assert(docs[i][0] == documents@[i]@[0]@);
        assert(hrefs[i] == opt_string(links@[i]));
    }
    lemma_collected_link(docs, hrefs, i);
}

proof fn lemma_collected_link(
    documents: Seq<Seq<Seq<char>>>,
    links: Seq<Option<Seq<char>>>,
    i: int,
)
    requires
        documents.len() == links.len(),
        0 <= i <= documents.len(),
        forall|j: int|
            0 <= j < i ==> !((#[trigger] documents[j]).len() > 0 && documents[j][0]
                == SAMMELDOKUMENT@),
        i < documents.len() ==> documents[i].len() > 0 && documents[i][0] == SAMMELDOKUMENT@,
    ensures
        collected_link(documents, links) == (if i < documents.len() {
            links[i]
        } else {
            None
        }),
    decreases documents.len(),
{
    if i > 0 {
        let rest = documents.skip(1);
        assert(!(documents[0].len() > 0 && documents[0][0] == SAMMELDOKUMENT@));
        assert forall|j: int| 0 <= j < i - 1 implies !((#[trigger] rest[j]).len() > 0 && rest[j][0]
            == SAMMELDOKUMENT@) by {
            assert(rest[j] == documents[j + 1]);
        }
        lemma_collected_link(rest, links.skip(1), i - 1);
    }
}

/// Each thing that is known of a document comes from its own place on the page.
pub proof fn law_data_come_from_their_places(
    s: &Selections,
    sammeldokument: Option<String>,
    r: WebsiteData,
    singles: (Option<String>, Option<String>, Option<String>),
    unterstuetzer: Vec<String>,
    beteiligt: Vec<String>,
    gremien: Vec<String>,
)
    requires
        call_ensures(website_data, (s, sammeldokument), r),
        call_ensures(first, (&s.art,), singles.0),
        call_ensures(first, (&s.verfasser,), singles.1),
        call_ensures(first, (&s.amt,), singles.2),
        call_ensures(lines, (&s.unterstuetzer,), unterstuetzer),
        call_ensures(list, (&s.beteiligt,), beteiligt),
        call_ensures(nonempty, (&s.gremien,), gremien),
    ensures
        opt_string(r.art) == opt_string(singles.0),
        opt_string(r.verfasser) == opt_string(singles.1),
        opt_string(r.amt) == opt_string(singles.2),
        string_views(r.unterstuetzer@) == string_views(unterstuetzer@),
        string_views(r.beteiligt@) == string_views(beteiligt@),
        string_views(r.gremien@) == string_views(gremien@),
        opt_string(r.sammeldokument) == opt_string(sammeldokument),
        r.already_discussed <==> s.discussed@.len() > 0,
{
    assert(r@.art == opt_string(r.art));
    assert(r@.unterstuetzer == string_views(r.unterstuetzer@));
    assert(element_views(s.discussed@).len() == s.discussed@.len());
}

/// A page that is not too long is read by what stands at the places of the
/// council's pages. The link of the collected document is relative to the page.
pub proof fn law_page_is_read(
    html: &str,
    url: &str,
    r: Option<WebsiteData>,
    s: &Selections,
    link: Option<String>,
    collected: Option<String>,
    data: WebsiteData,
)
    requires
        call_ensures(scrape, (html, url), r),
        element_views(s.art@) == selected_texts(html@, "#voart"@),
        element_views(s.verfasser@) == selected_texts(html@, "#voverfasser1"@),
        element_views(s.unterstuetzer@) == selected_texts(html@, "#anunterstuetzer"@),
        element_views(s.amt@) == selected_texts(html@, "#vofamt"@),
        element_views(s.beteiligt@) == selected_texts(html@, "#vobamt"@),
        element_views(s.gremien@) == selected_texts(
            html@,
            "#bfTable > table > tbody > tr > td:not(.date) + td:nth-of-type(3)"@,
        ),
        element_views(s.discussed@) == selected_texts(html@, "#bfTable .toLink a"@),
        element_views(s.documents@) == selected_texts(html@, "#dokumenteHeaderPanel a"@),
        attribute_views(s.document_links@) == selected_attributes(
            html@,
            "#dokumenteHeaderPanel a"@,
            "href"@,
        ),
        call_ensures(find_collected, (&s.documents, &s.document_links), link),
        opt_string(collected) == (match link {
            Some(href) => url_joined(url@, href@),
            None => None,
        }),
        call_ensures(website_data, (s, collected), data),
    ensures
        r is Some <==> html@.len() <= MAX_PAGE_CHARS,
        r is Some ==> r->0@ == data@,
{
}

} // verus!
