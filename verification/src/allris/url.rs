//! Addresses of the council information system. An address is held in its
//! serialised form.

use chrono::{DateTime, SecondsFormat};
use url::Url;
use vstd::prelude::*;
use vstd::string::*;

use crate::text::{ends_with_char, same_text, strip_prefix};

verus! {

use crate::text::{opt_string, opt_text, stripped};

/// Nothing is added to longer addresses. An address holds at most four
/// gibibytes, and [`Url`] panics when it outgrows them. A character can take
/// dozens of bytes in an address. Up to this number of characters there is room
/// for that.
pub const MAX_URL_CHARS: usize = 50_000_000;

/// What [`Url::parse`] makes of a text: the serialised address, or what the
/// error says.
pub uninterp spec fn url_parsed(input: Seq<char>) -> Result<Seq<char>, Seq<char>>;

/// The path of an address, as [`Url::path`] gives it. There is none for what is
/// no address.
pub uninterp spec fn url_path(url: Seq<char>) -> Option<Seq<char>>;

/// An address with another path, as [`Url::set_path`] makes it.
pub uninterp spec fn url_with_path(url: Seq<char>, path: Seq<char>) -> Option<Seq<char>>;

/// An address relative to another one, as [`Url::join`] makes it.
pub uninterp spec fn url_joined(base: Seq<char>, relative: Seq<char>) -> Option<Seq<char>>;

/// The decoded names and values of an address's query, as [`Url::query_pairs`]
/// gives them.
pub uninterp spec fn url_query(url: Seq<char>) -> Option<Seq<(Seq<char>, Seq<char>)>>;

/// An address with one more name and value in its query, as
/// [`Url::query_pairs_mut`] appends them.
pub uninterp spec fn url_with_pair(url: Seq<char>, name: Seq<char>, value: Seq<char>) -> Option<
    Seq<char>,
>;

/// A point in time, in seconds since 1970 in UTC, as
/// [`DateTime::to_rfc3339_opts`] writes it with seconds and a numeric offset.
/// There is none out of the range of [`DateTime::from_timestamp`].
pub uninterp spec fn rfc3339(secs: int) -> Option<Seq<char>>;

/// The characters of a string or of an error.
pub open spec fn result_view(r: Result<String, String>) -> Result<Seq<char>, Seq<char>> {
    match r {
        Ok(s) => Ok(s@),
        Err(s) => Err(s@),
    }
}

/// [`Url::parse`], and the serialisation of what it gives: both depend on the
/// text alone.
#[verifier::external_body]
pub(crate) fn parse(input: &str) -> (r: Result<String, String>)
    ensures
        result_view(r) == url_parsed(input@),
{
    Url::parse(input).map(|url| url.to_string()).map_err(|e| e.to_string())
}

/// [`Url::path`]: it depends on the address alone.
#[verifier::external_body]
fn path(url: &str) -> (r: Option<String>)
    ensures
        opt_string(r) == url_path(url@),
{
    Url::parse(url).ok().map(|url| url.path().to_owned())
}

/// [`Url::set_path`]: the new address depends on the old one and the path
/// alone.
#[verifier::external_body]
fn set_path(url: &str, path: &str) -> (r: Option<String>)
    requires
        url@.len() <= MAX_URL_CHARS,
        path@.len() <= MAX_URL_CHARS + 1,
    ensures
        opt_string(r) == url_with_path(url@, path@),
{
    let mut url = Url::parse(url).ok()?;
    url.set_path(path);
    Some(url.to_string())
}

/// [`Url::join`]: the new address depends on the base and the relative address
/// alone.
#[verifier::external_body]
pub(crate) fn join(base: &str, relative: &str) -> (r: Option<String>)
    ensures
        opt_string(r) == url_joined(base@, relative@),
{
    Url::parse(base).ok()?.join(relative).ok().map(|url| url.to_string())
}

/// Names and values.
pub open spec fn pair_views(pairs: Seq<(String, String)>) -> Seq<(Seq<char>, Seq<char>)> {
    pairs.map_values(|p: (String, String)| (p.0@, p.1@))
}

/// [`Url::query_pairs`]: it depends on the address alone.
#[verifier::external_body]
fn query_pairs(url: &str) -> (r: Option<Vec<(String, String)>>)
    ensures
        match r {
            Some(pairs) => url_query(url@) == Some(pair_views(pairs@)),
            None => url_query(url@) is None,
        },
{
    Url::parse(url).ok().map(|url| url.query_pairs().into_owned().collect())
}

/// [`Url::query_pairs_mut`] with one pair appended: the new address depends on
/// the old one and the pair alone.
#[verifier::external_body]
fn append_pair(url: &str, name: &str, value: &str) -> (r: Option<String>)
    requires
        url@.len() <= MAX_URL_CHARS,
        name@.len() <= MAX_URL_CHARS,
        value@.len() <= MAX_URL_CHARS,
    ensures
        opt_string(r) == url_with_pair(url@, name@, value@),
{
    let mut url = Url::parse(url).ok()?;
    url.query_pairs_mut().append_pair(name, value);
    Some(url.to_string())
}

/// [`DateTime::from_timestamp`] and [`DateTime::to_rfc3339_opts`]: what is
/// written depends on the point in time alone.
#[verifier::external_body]
fn to_rfc3339(secs: i64) -> (r: Option<String>)
    ensures
        opt_string(r) == rfc3339(secs as int),
{
    DateTime::from_timestamp(secs, 0).map(|t| t.to_rfc3339_opts(SecondsFormat::Secs, false))
}

/// Why a text is no address of a council information system.
#[derive(Debug, PartialEq, Eq)]
pub enum UrlError {
    Invalid(String),
    TooLong,
    NoPath,
}

/// The address of a council information system.
#[derive(Debug, PartialEq, Eq)]
pub struct AllrisUrl {
    url: String,
}

impl View for AllrisUrl {
    type V = Seq<char>;

    closed spec fn view(&self) -> Seq<char> {
        self.url@
    }
}

/// A text is too long for an address, or for a part of one.
pub open spec fn is_long(s: Seq<char>) -> bool {
    s.len() > MAX_URL_CHARS
}

/// The path ends with a slash.
pub open spec fn is_directory(path: Seq<char>) -> bool {
    path.len() > 0 && path.last() == '/'
}

/// Puts a slash behind a path that does not end with one.
pub fn directory_path(path: &str) -> (r: Option<String>)
    ensures
        match r {
            Some(p) => !is_directory(path@) && p@ == path@ + seq!['/'] && is_directory(p@),
            None => is_directory(path@),
        },
{
    if ends_with_char(path, '/') {
        None
    } else {
        let mut p = path.to_owned();
        p.push('/');
        assert(p@ =~= path@ + seq!['/']);
        Some(p)
    }
}

/// An address with a path that ends with a slash.
pub open spec fn as_directory(url: Seq<char>) -> Option<Seq<char>> {
    match url_path(url) {
        None => None,
        Some(path) => if is_directory(path) {
            Some(url)
        } else {
            url_with_path(url, path + seq!['/'])
        },
    }
}

/// A slash has to be added to the path of an address that is too long for it.
pub open spec fn grows_too_long(url: Seq<char>) -> bool {
    match url_path(url) {
        None => false,
        Some(path) => !is_directory(path) && (is_long(url) || is_long(path)),
    }
}

impl AllrisUrl {
    /// Reads an address. If its path does not end with a slash, one is added,
    /// so that other addresses can be relative to it.
    pub fn parse(input: &str) -> (r: Result<Self, UrlError>)
        ensures
            match url_parsed(input@) {
                Err(text) => r matches Err(UrlError::Invalid(s)) && s@ == text,
                Ok(url) => if grows_too_long(url) {
                    r == Err::<AllrisUrl, UrlError>(UrlError::TooLong)
                } else {
                    match as_directory(url) {
                        Some(directory) => r matches Ok(a) && a@ == directory,
                        None => r == Err::<AllrisUrl, UrlError>(UrlError::NoPath),
                    }
                },
            },
    {
        let url = match parse(input) {
            Ok(url) => url,
            Err(text) => return Err(UrlError::Invalid(text)),
        };
        let path = match path(url.as_str()) {
            Some(path) => path,
            None => return Err(UrlError::NoPath),
        };
        match directory_path(path.as_str()) {
            None => Ok(AllrisUrl { url }),
            Some(directory) => {
                if url.as_str().unicode_len() > MAX_URL_CHARS || path.as_str().unicode_len()
                    > MAX_URL_CHARS {
                    return Err(UrlError::TooLong);
                }
                match set_path(url.as_str(), directory.as_str()) {
                    Some(url) => Ok(AllrisUrl { url }),
                    None => Err(UrlError::NoPath),
                }
            },
        }
    }

    /// The serialised address.
    pub fn as_str(&self) -> (r: &str)
        ensures
            r@ == self@,
    {
        self.url.as_str()
    }

    /// The address of the feed of released documents.
    pub fn feed_url(&self) -> (r: Option<String>)
        ensures
            opt_string(r) == url_joined(self@, "rss/voreleased"@),
    {
        join(self.url.as_str(), "rss/voreleased")
    }
}

/// An address with one more name and value in its query, if there are both
/// and they are not too long.
pub open spec fn and_pair(
    url: Option<Seq<char>>,
    name: Seq<char>,
    value: Option<Seq<char>>,
) -> Option<Seq<char>> {
    match (url, value) {
        (Some(u), Some(v)) => if is_long(u) || is_long(v) {
            None
        } else {
            url_with_pair(u, name, v)
        },
        _ => None,
    }
}

/// One step of putting a query together.
fn with_pair(url: Option<String>, name: &str, value: Option<String>) -> (r: Option<String>)
    requires
        !is_long(name@),
    ensures
        opt_string(r) == and_pair(
            opt_string(url),
            name@,
            opt_string(value),
        ),
{
    match (url, value) {
        (Some(url), Some(value)) => {
            if url.as_str().unicode_len() > MAX_URL_CHARS || value.as_str().unicode_len()
                > MAX_URL_CHARS {
                return None;
            }
            append_pair(url.as_str(), name, value.as_str())
        },
        _ => None,
    }
}

/// The address at which documents that were modified in a time are listed.
pub open spec fn papers_url(base: Seq<char>, since: int, until: Option<int>) -> Option<Seq<char>> {
    let all = and_pair(url_joined(base, "oparl/papers"@), "omit_internal"@, Some("true"@));
    let recent = and_pair(all, "modified_since"@, rfc3339(since));
    match until {
        None => recent,
        Some(t) => and_pair(recent, "modified_until"@, rfc3339(t)),
    }
}

/// The address at which documents that were modified in a time are listed, in
/// seconds since 1970. There is none if a point in time is out of range, or if
/// the address gets too long.
pub fn endpoint_url(url: &AllrisUrl, since: i64, until: Option<i64>) -> (r: Option<String>)
    ensures
        opt_string(r) == papers_url(
            url@,
            since as int,
            match until {
                Some(t) => Some(t as int),
                None => None,
            },
        ),
{
    proof {
        reveal_strlit("omit_internal");
        reveal_strlit("modified_since");
        reveal_strlit("modified_until");
    }
    let all = with_pair(
        join(url.as_str(), "oparl/papers"),
        "omit_internal",
        Some("true".to_owned()),
    );
    let recent = with_pair(all, "modified_since", to_rfc3339(since));
    match until {
        None => recent,
        Some(t) => with_pair(recent, "modified_until", to_rfc3339(t)),
    }
}

/// The first value with a given name.
pub open spec fn first_value(pairs: Seq<(Seq<char>, Seq<char>)>, name: Seq<char>) -> Option<
    Seq<char>,
>
    decreases pairs.len(),
{
    if pairs.len() == 0 {
        None
    } else if pairs[0].0 == name {
        Some(pairs[0].1)
    } else {
        first_value(pairs.skip(1), name)
    }
}

/// Finds the first value with a given name.
pub fn find_value(pairs: &Vec<(String, String)>, name: &str) -> (r: Option<String>)
    ensures
        opt_string(r) == first_value(pair_views(pairs@), name@),
{
    let ghost all = pair_views(pairs@);
    let mut i: usize = 0;
    assert(all.skip(0) =~= all);
    while i < pairs.len()
        invariant
            i <= pairs@.len(),
            all == pair_views(pairs@),
            first_value(all, name@) == first_value(all.skip(i as int), name@),
        decreases pairs@.len() - i,
    {
        let ghost rest = all.skip(i as int);
        assert(rest[0] == (pairs@[i as int].0@, pairs@[i as int].1@));
        assert(rest.skip(1) =~= all.skip(i + 1));
        if same_text(pairs[i].0.as_str(), name) {
            return Some(pairs[i].1.clone());
        }
        i = i + 1;
    }
    None
}

/// The number by which a document is known: the value of a name in the query
/// of its address.
pub open spec fn number_in_query(url: Seq<char>, name: Seq<char>) -> Option<Seq<char>> {
    match url_query(url) {
        Some(pairs) => first_value(pairs, name),
        None => None,
    }
}

/// The number by which a document is known, from its address.
pub fn volfdnr(url: &str, name: &str) -> (r: Option<String>)
    ensures
        opt_string(r) == number_in_query(url@, name@),
{
    match query_pairs(url) {
        Some(pairs) => find_value(&pairs, name),
        None => None,
    }
}

pub const LINK_PREFIX: &'static str = "https://www.bonn.sitzung-online.de/vo020?VOLFDNR=";

/// The number by which a document is known, from a link of the usual form.
pub fn volfdnr_of_link(link: &str) -> (r: Option<&str>)
    ensures
        opt_text(r) == stripped(link@, LINK_PREFIX@),
{
    strip_prefix(link, LINK_PREFIX)
}

/// Whether a failed request is made again: not if the server answered that the
/// request itself is at fault.
pub fn should_retry(status: Option<u16>) -> (r: bool)
    ensures
        r == match status {
            Some(code) => 500 <= code < 600,
            None => true,
        },
{
    match status {
        Some(code) => 500 <= code && code < 600,
        None => true,
    }
}

/// A path is left alone if it ends with a slash, and gets one otherwise.
pub proof fn law_directories_end_with_slash(path: &str, r: Option<String>)
    requires
        call_ensures(directory_path, (path,), r),
    ensures
        r is None <==> path@.len() > 0 && path@[path@.len() - 1] == '/',
        r is Some ==> r->0@ == path@.push('/'),
{
    if r is Some {
        assert(path@ + seq!['/'] =~= path@.push('/'));
    }
}

/// The base address is what was given, but for a slash at the end of the path.
pub proof fn law_base_address_is_a_directory(
    input: &str,
    r: Result<AllrisUrl, UrlError>,
    url: Seq<char>,
    path: &str,
    directory: Option<String>,
)
    requires
        call_ensures(AllrisUrl::parse, (input,), r),
        url_parsed(input@) == Ok::<Seq<char>, Seq<char>>(url),
        url_path(url) == Some(path@),
        call_ensures(directory_path, (path,), directory),
        url.len() <= MAX_URL_CHARS,
        path@.len() <= MAX_URL_CHARS,
    ensures
        directory is None ==> r is Ok && r->Ok_0@ == url,
        directory matches Some(d) ==> match url_with_path(url, d@) {
            Some(u) => r is Ok && r->Ok_0@ == u,
            None => r matches Err(UrlError::NoPath),
        },
{
}

/// What is no address is refused with the reason that the parser gives.
pub proof fn law_bad_addresses_are_refused(input: &str, r: Result<AllrisUrl, UrlError>)
    requires
        call_ensures(AllrisUrl::parse, (input,), r),
    ensures
        url_parsed(input@) matches Err(why) ==> (r matches Err(UrlError::Invalid(s)) && s@ == why),
        r is Ok ==> url_parsed(input@) is Ok,
        r matches Err(UrlError::Invalid(_)) ==> url_parsed(input@) is Err,
{
}

/// The value that is found is that of the first pair with the name. There is
/// none only if no pair has it.
pub proof fn law_first_value_is_found(
    pairs: Vec<(String, String)>,
    name: &str,
    r: Option<String>,
    i: int,
)
    requires
        call_ensures(find_value, (&pairs, name), r),
    ensures
        0 <= i < pairs@.len() && pairs@[i].0@ == name@ && (forall|j: int|
            0 <= j < i ==> (#[trigger] pairs@[j]).0@ != name@) ==> r is Some && r->0@
            == pairs@[i].1@,
        (forall|j: int| 0 <= j < pairs@.len() ==> (#[trigger] pairs@[j]).0@ != name@) ==> r is None,
{
    let all = pair_views(pairs@);
    if 0 <= i < pairs@.len() && pairs@[i].0@ == name@ && (forall|j: int|
        0 <= j < i ==> (#[trigger] pairs@[j]).0@ != name@) {
        assert forall|j: int| 0 <= j < i implies (#[trigger] all[j]).0 != name@ by {
            assert(all[j].0 == pairs@[j].0@);
        }
        lemma_first_value(all, name@, i);
    }
    if forall|j: int| 0 <= j < pairs@.len() ==> (#[trigger] pairs@[j]).0@ != name@ {
        assert forall|j: int| 0 <= j < all.len() implies (#[trigger] all[j]).0 != name@ by {
            assert(all[j].0 == pairs@[j].0@);
        }
        lemma_first_value(all, name@, all.len() as int);
    }
}

proof fn lemma_first_value(pairs: Seq<(Seq<char>, Seq<char>)>, name: Seq<char>, i: int)
    requires
        0 <= i <= pairs.len(),
        i < pairs.len() ==> pairs[i].0 == name,
        forall|j: int| 0 <= j < i ==> (#[trigger] pairs[j]).0 != name,
    ensures
        first_value(pairs, name) == (if i < pairs.len() {
            Some(pairs[i].1)
        } else {
            None
        }),
    decreases pairs.len(),
{
    if i > 0 {
        let rest = pairs.skip(1);
        assert(pairs[0].0 != name);
        assert forall|j: int| 0 <= j < i - 1 implies (#[trigger] rest[j]).0 != name by {
            assert(pairs[j + 1].0 != name);
        }
        lemma_first_value(rest, name, i - 1);
    }
}

/// A document is known by the value that its address gives in the query.
pub proof fn law_number_stands_in_the_query(
    url: &str,
    name: &str,
    r: Option<String>,
    pairs: Vec<(String, String)>,
    value: Option<String>,
)
    requires
        call_ensures(volfdnr, (url, name), r),
        url_query(url@) is Some ==> pair_views(pairs@) == url_query(url@)->0,
        call_ensures(find_value, (&pairs, name), value),
    ensures
        url_query(url@) is None ==> r is None,
        url_query(url@) is Some ==> opt_string(r) == opt_string(value),
{
}

/// The number stands behind the start that links to documents have.
pub proof fn law_number_stands_in_the_link(link: &str, r: Option<&str>, number: Seq<char>)
    requires
        call_ensures(volfdnr_of_link, (link,), r),
    ensures
        r matches Some(n) ==> link@ == "https://www.bonn.sitzung-online.de/vo020?VOLFDNR="@ + n@,
        link@ == "https://www.bonn.sitzung-online.de/vo020?VOLFDNR="@ + number ==> r is Some
            && r->0@ == number,
{
    let prefix = "https://www.bonn.sitzung-online.de/vo020?VOLFDNR="@;
    if let Some(n) = r {
        assert(link@ =~= prefix + n@);
    }
    if link@ == prefix + number {
        assert(link@.take(prefix.len() as int) =~= prefix);
        assert(link@.skip(prefix.len() as int) =~= number);
    }
}

/// A request is made again exactly if there was no answer or the server is at
/// fault.
pub proof fn law_server_errors_are_retried(status: Option<u16>, r: bool)
    requires
        call_ensures(should_retry, (status,), r),
    ensures
        status is None ==> r,
        status matches Some(code) ==> (r <==> code / 100 == 5),
{
}

/// Documents are asked for with a lower bound on when they were modified, and
/// with an upper one if there is one. Internal ones are left out.
pub proof fn law_bounds_stand_in_the_query(
    url: &AllrisUrl,
    since: i64,
    until: i64,
    open: Option<String>,
    bounded: Option<String>,
    base: Seq<char>,
    public: Seq<char>,
)
    requires
        call_ensures(endpoint_url, (url, since, None), open),
        call_ensures(endpoint_url, (url, since, Some(until)), bounded),
        url_joined(url@, "oparl/papers"@) == Some(base),
        url_with_pair(base, "omit_internal"@, "true"@) == Some(public),
        base.len() <= MAX_URL_CHARS,
        public.len() <= MAX_URL_CHARS,
        rfc3339(since as int) matches Some(t) && t.len() <= MAX_URL_CHARS,
        rfc3339(until as int) matches Some(t) && t.len() <= MAX_URL_CHARS,
    ensures
        opt_string(open) == url_with_pair(
            public,
            "modified_since"@,
            rfc3339(since as int)->0,
        ),
        open is None ==> bounded is None,
        open is Some && open->0@.len() <= MAX_URL_CHARS ==> opt_string(bounded) == url_with_pair(
            open->0@,
            "modified_until"@,
            rfc3339(until as int)->0,
        ),
{
    reveal_strlit("true");
}

/// The feed stands at a fixed place below the base address.
pub proof fn law_feed_stands_below_base(url: &AllrisUrl, r: Option<String>)
    requires
        call_ensures(AllrisUrl::feed_url, (url,), r),
    ensures
        opt_string(r) == url_joined(url@, "rss/voreleased"@),
{
}

/// An address that would have to grow, and is too long for it, is refused as
/// such. One that need not grow is taken however long it is.
pub proof fn law_long_addresses_do_not_grow(
    input: &str,
    r: Result<AllrisUrl, UrlError>,
    url: Seq<char>,
    path: Seq<char>,
)
    requires
        call_ensures(AllrisUrl::parse, (input,), r),
        url_parsed(input@) == Ok::<Seq<char>, Seq<char>>(url),
        url_path(url) == Some(path),
        url.len() > 50_000_000 || path.len() > 50_000_000,
    ensures
        path.len() > 0 && path[path.len() - 1] == '/' ==> r is Ok && r->Ok_0@ == url,
        !(path.len() > 0 && path[path.len() - 1] == '/') ==> (r matches Err(UrlError::TooLong)),
{
}

} // verus!
