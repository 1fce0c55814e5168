//! Documents, their tags, and the filters that users put on them.

use regex::Regex;
use vstd::prelude::*;
use vstd::string::*;

use crate::text::same_text;

verus! {

/// The identifier of a chat. Groups and channels have negative ones.
pub type ChatId = i64;

/// A property of a document that filters can look at.
#[derive(Clone, Copy, Debug, PartialEq, Eq, Structural)]
pub enum Tag {
    Dsnr,
    Art,
    Gremium,
    Verfasser,
    Federfuehrend,
    Beteiligt,
}

/// All tags, in the order in which they are offered.
pub open spec fn all_tags() -> Seq<Tag> {
    seq![Tag::Dsnr, Tag::Art, Tag::Beteiligt, Tag::Federfuehrend, Tag::Gremium, Tag::Verfasser]
}

/// The characters of each text.
pub open spec fn texts(s: Seq<&str>) -> Seq<Seq<char>> {
    s.map_values(|t: &str| t@)
}

impl Tag {
    /// All tags, in the order in which they are offered.
    pub fn tags() -> (r: Vec<Tag>)
        ensures
            r@ == all_tags(),
    {
        let r = vec![
            Tag::Dsnr,
            Tag::Art,
            Tag::Beteiligt,
            Tag::Federfuehrend,
            Tag::Gremium,
            Tag::Verfasser,
        ];
        assert(r@ =~= all_tags());
        r
    }

    /// What the tag is called.
    pub open spec fn spec_label(self) -> Seq<char> {
        match self {
            Tag::Dsnr => "Drucksachen-Nummer"@,
            Tag::Art => "Art der Vorlage"@,
            Tag::Gremium => "Gremium"@,
            Tag::Verfasser => "Antrag- oder Fragesteller:in"@,
            Tag::Federfuehrend => "Federführendes Amt"@,
            Tag::Beteiligt => "Beteiligtes Amt"@,
        }
    }

    /// What the tag is called.
    pub fn label(&self) -> (r: &'static str)
        ensures
            r@ == self.spec_label(),
    {
        match self {
            Tag::Dsnr => "Drucksachen-Nummer",
            Tag::Art => "Art der Vorlage",
            Tag::Gremium => "Gremium",
            Tag::Verfasser => "Antrag- oder Fragesteller:in",
            Tag::Federfuehrend => "Federführendes Amt",
            Tag::Beteiligt => "Beteiligtes Amt",
        }
    }

    /// What the tag means, where the label does not say it.
    pub open spec fn spec_description(self) -> Option<Seq<char>> {
        match self {
            Tag::Dsnr => None,
            Tag::Art => None,
            Tag::Gremium => Some("Gremien, die zur Beratung der Vorlage vorgesehen sind."@),
            Tag::Verfasser => Some(
                "Personen oder Fraktionen, die den Antrag oder die Frage gestellt haben."@,
            ),
            Tag::Federfuehrend => None,
            Tag::Beteiligt => Some(
                "Jedes an der Vorlage beteiligte Amt. Das schließt auch das federführende Amt mit ein."@,
            ),
        }
    }

    /// What the tag means, where the label does not say it.
    pub fn description(&self) -> (r: Option<&'static str>)
        ensures
            crate::text::opt_text(r) == self.spec_description(),
    {
        match self {
            Tag::Dsnr => None,
            Tag::Art => None,
            Tag::Gremium => Some("Gremien, die zur Beratung der Vorlage vorgesehen sind."),
            Tag::Verfasser => {
                Some("Personen oder Fraktionen, die den Antrag oder die Frage gestellt haben.")
            },
            Tag::Federfuehrend => None,
            Tag::Beteiligt => Some(
                "Jedes an der Vorlage beteiligte Amt. Das schließt auch das federführende Amt mit ein.",
            ),
        }
    }

    /// Values that the tag can have.
    pub open spec fn spec_examples(self) -> Seq<Seq<char>> {
        match self {
            Tag::Dsnr => seq!["252807"@, "242248-02 AA"@],
            Tag::Art => seq![
                "Beschlussvorlage, Stellungnahme der Verwaltung"@,
                "Anregungen und Beschwerden"@,
            ],
            Tag::Gremium => seq![
                "Rat"@,
                "Bezirksvertretung Beuel"@,
                "Schulausschuss"@,
                "Städtebau- und Gestaltungsbeirat"@,
            ],
            Tag::Verfasser => seq![
                "SPD-Fraktion im Rat der Stadt Bonn"@,
                "Patrick Tollasz"@,
                "CDU Bezirksfraktion Bad Godesberg"@,
            ],
            _ => seq![
                "Dezernat II"@,
                "52 Sport- und Bäderamt"@,
                "OB-22 Stabsstelle Bürgerbeteiligung"@,
                "61-3 Stadtverkehr"@,
            ],
        }
    }

    /// Values that the tag can have.
    pub fn examples(&self) -> (r: Vec<&'static str>)
        ensures
            texts(r@) == self.spec_examples(),
    {
        let r = match self {
            Tag::Dsnr => vec!["252807", "242248-02 AA"],
            Tag::Art => vec![
                "Beschlussvorlage, Stellungnahme der Verwaltung",
                "Anregungen und Beschwerden",
            ],
            Tag::Gremium => vec![
                "Rat",
                "Bezirksvertretung Beuel",
                "Schulausschuss",
                "Städtebau- und Gestaltungsbeirat",
            ],
            Tag::Verfasser => vec![
                "SPD-Fraktion im Rat der Stadt Bonn",
                "Patrick Tollasz",
                "CDU Bezirksfraktion Bad Godesberg",
            ],
            Tag::Federfuehrend | Tag::Beteiligt => vec![
                "Dezernat II",
                "52 Sport- und Bäderamt",
                "OB-22 Stabsstelle Bürgerbeteiligung",
                "61-3 Stadtverkehr",
            ],
        };
        assert(texts(r@) =~= self.spec_examples());
        r
    }
}

/// A link below a message.
#[derive(Debug, PartialEq, Eq)]
pub struct LinkButton {
    pub text: String,
    pub url: String,
}

/// An announcement of a document.
#[derive(Debug, PartialEq, Eq)]
pub struct Message {
    pub text: String,
    pub buttons: Vec<LinkButton>,
    pub tags: Vec<(Tag, String)>,
}

/// The values of a document's tags.
pub open spec fn tag_values(tags: Seq<(Tag, String)>) -> Seq<(Tag, Seq<char>)> {
    tags.map_values(|t: (Tag, String)| (t.0, t.1@))
}

/// Whether [`Regex::new`] accepts a pattern. It limits the size of a compiled
/// pattern, which depends on the number of bits in a machine word.
pub uninterp spec fn pattern_accepted(pattern: Seq<char>, word_bits: int) -> bool;

/// Whether a pattern is accepted on this machine.
pub open spec fn is_regex(pattern: Seq<char>) -> bool {
    pattern_accepted(pattern, usize::BITS as int)
}

/// Whether [`Regex::is_match`] finds an accepted pattern in a text.
pub uninterp spec fn pattern_found(pattern: Seq<char>, text: Seq<char>) -> bool;

/// [`Regex::new`]: whether it accepts the pattern depends on the pattern and the
/// size of a machine word alone.
#[verifier::external_body]
pub(crate) fn accepts_pattern(pattern: &str) -> (r: bool)
    ensures
        r == pattern_accepted(pattern@, usize::BITS as int),
{
    Regex::new(pattern).is_ok()
}

/// [`Regex::is_match`] on the regex that [`Regex::new`] makes of an accepted
/// pattern: whether there is a match depends on pattern and text alone.
#[verifier::external_body]
pub(crate) fn finds_pattern(pattern: &str, text: &str) -> (r: bool)
    requires
        is_regex(pattern@),
    ensures
        r == pattern_found(pattern@, text@),
{
    Regex::new(pattern).is_ok_and(|regex| regex.is_match(text))
}

/// A demand on one tag of a document.
#[derive(Debug, PartialEq, Eq)]
pub struct Condition {
    pub tag: Tag,
    pub pattern: String,
    pub negate: bool,
}

/// What a condition says.
pub struct ConditionView {
    pub tag: Tag,
    pub pattern: Seq<char>,
    pub negate: bool,
}

impl View for Condition {
    type V = ConditionView;

    open spec fn view(&self) -> ConditionView {
        ConditionView { tag: self.tag, pattern: self.pattern@, negate: self.negate }
    }
}

impl Clone for Condition {
    fn clone(&self) -> (r: Self)
        ensures
            r == *self,
    {
        Condition { tag: self.tag, pattern: self.pattern.clone(), negate: self.negate }
    }
}

/// Whether the pattern is found in one of the values of the tag.
pub open spec fn tag_found(c: ConditionView, tags: Seq<(Tag, Seq<char>)>) -> bool {
    exists|i: int|
        0 <= i < tags.len() && #[trigger] tags[i].0 == c.tag && pattern_found(c.pattern, tags[i].1)
}

/// A condition holds of a document if its pattern is found in one of the
/// values of its tag, or, for a negated condition, if it is found in none.
/// Conditions whose pattern is no regular expression hold of nothing.
pub open spec fn condition_holds(c: ConditionView, tags: Seq<(Tag, Seq<char>)>) -> bool {
    is_regex(c.pattern) && tag_found(c, tags) != c.negate
}

/// What is shown for a condition.
pub open spec fn condition_text(c: ConditionView) -> Seq<char> {
    c.tag.spec_label() + " passt "@ + (if c.negate {
        "nicht "@
    } else {
        ""@
    }) + "zu \""@ + c.pattern + "\""@
}

/// Whether one of the tags is the given one, with a value in which the pattern
/// was found.
pub fn any_found(tags: &Vec<(Tag, String)>, tag: Tag, found: &Vec<bool>) -> (r: bool)
    requires
        found@.len() == tags@.len(),
    ensures
        r == exists|i: int| 0 <= i < tags@.len() && (#[trigger] tags@[i]).0 == tag && found@[i],
{
    let mut i: usize = 0;
    while i < tags.len()
        invariant
            i <= tags@.len(),
            found@.len() == tags@.len(),
            forall|j: int| 0 <= j < i ==> !((#[trigger] tags@[j]).0 == tag && found@[j]),
        decreases tags@.len() - i,
    {
        if tags[i].0 == tag && found[i] {
            return true;
        }
        i = i + 1;
    }
    false
}

impl Condition {
    /// Whether the condition holds of a document with the given tags. There is
    /// no answer for a pattern that is no regular expression.
    pub fn try_matches(&self, tags: &Vec<(Tag, String)>) -> (r: Option<bool>)
        ensures
            r == (if is_regex(self@.pattern) {
                Some(condition_holds(self@, tag_values(tags@)))
            } else {
                None
            }),
    {
        if !accepts_pattern(self.pattern.as_str()) {
            return None;
        }
        let mut found: Vec<bool> = Vec::new();
        let mut i: usize = 0;
        while i < tags.len()
            invariant
                i <= tags@.len(),
                found@.len() == i,
                is_regex(self.pattern@),
                forall|j: int|
                    0 <= j < i ==> found@[j] == ((#[trigger] tags@[j]).0 == self.tag
                        && pattern_found(self.pattern@, tags@[j].1@)),
            decreases tags@.len() - i,
        {
            let hit = tags[i].0 == self.tag && finds_pattern(
                self.pattern.as_str(),
                tags[i].1.as_str(),
            );
            found.push(hit);
            i = i + 1;
        }
        let result = any_found(tags, self.tag, &found);
        proof {
            let values = tag_values(tags@);
            if result {
                let k = choose|k: int|
                    0 <= k < tags@.len() && (#[trigger] tags@[k]).0 == self.tag && found@[k];
                assert(values[k].0 == self.tag);
            }
            if tag_found(self@, values) {
                let k = choose|k: int|
                    0 <= k < values.len() && #[trigger] values[k].0 == self.tag && pattern_found(
                        self.pattern@,
                        values[k].1,
                    );
                assert(tags@[k].0 == self.tag);
            }
        }
        Some(result != self.negate)
    }

    /// Whether the condition holds of a document with the given tags.
    pub fn matches(&self, message: &Message) -> (r: bool)
        ensures
            r == condition_holds(self@, tag_values(message.tags@)),
    {
        match self.try_matches(&message.tags) {
            Some(r) => r,
            None => false,
        }
    }

    /// The condition in words.
    pub fn to_text(&self) -> (s: String)
        ensures
            s@ == condition_text(self@),
    {
        let mut s = self.tag.label().to_owned();
        s.append(" passt ");
        s.append(if self.negate { "nicht " } else { "" });
        s.append("zu \"");
        s.append(self.pattern.as_str());
        s.append("\"");
        s
    }
}

/// A demand on a document: all conditions have to hold.
#[derive(Debug, PartialEq, Eq)]
pub struct Filter {
    pub conditions: Vec<Condition>,
}

/// What a list of conditions says.
pub open spec fn condition_views(conditions: Seq<Condition>) -> Seq<ConditionView> {
    conditions.map_values(|c: Condition| c@)
}

impl View for Filter {
    type V = Seq<ConditionView>;

    open spec fn view(&self) -> Seq<ConditionView> {
        condition_views(self.conditions@)
    }
}

impl Clone for Filter {
    fn clone(&self) -> (r: Self)
        ensures
            r@ == self@,
    {
        let conditions = self.conditions.clone();
        assert(conditions@ =~= self.conditions@) by {
            assert forall|i: int| 0 <= i < conditions@.len() implies conditions@[i]
                == self.conditions@[i] by {
                assert(cloned(self.conditions@[i], conditions@[i]));
            }
        }
        Filter { conditions }
    }
}

/// A filter holds of a document if all of its conditions do.
pub open spec fn filter_holds(f: Seq<ConditionView>, tags: Seq<(Tag, Seq<char>)>) -> bool {
    forall|i: int| 0 <= i < f.len() ==> #[trigger] condition_holds(f[i], tags)
}

/// The conditions of a filter line by line.
pub open spec fn condition_lines(f: Seq<ConditionView>) -> Seq<char>
    decreases f.len(),
{
    if f.len() == 0 {
        Seq::empty()
    } else {
        condition_lines(f.drop_last()) + (if f.len() == 1 {
            "  "@
        } else {
            "& "@
        }) + condition_text(f.last()) + "\n"@
    }
}

/// What is shown for a filter.
pub open spec fn filter_text(f: Seq<ConditionView>) -> Seq<char> {
    if f.len() == 0 {
        "Alle Vorlagen\n"@
    } else {
        condition_lines(f)
    }
}

/// What asking the conditions one after the other answers: the first that
/// does not hold decides, and so does the first without an answer.
pub open spec fn filter_answer(f: Seq<ConditionView>, tags: Seq<(Tag, Seq<char>)>) -> Option<bool>
    decreases f.len(),
{
    if f.len() == 0 {
        Some(true)
    } else if !is_regex(f[0].pattern) {
        None
    } else if !condition_holds(f[0], tags) {
        Some(false)
    } else {
        filter_answer(f.skip(1), tags)
    }
}

impl Filter {
    /// Whether the filter holds of a document, as long as no pattern is met
    /// that is no regular expression.
    pub fn try_matches(&self, message: &Message) -> (r: Option<bool>)
        ensures
            r == filter_answer(self@, tag_values(message.tags@)),
    {
        let ghost tags = tag_values(message.tags@);
        let mut i: usize = 0;
        assert(self@.skip(0) =~= self@);
        while i < self.conditions.len()
            invariant
                i <= self.conditions@.len(),
                self@.len() == self.conditions@.len(),
                tags == tag_values(message.tags@),
                filter_answer(self@, tags) == filter_answer(self@.skip(i as int), tags),
            decreases self.conditions@.len() - i,
        {
            let ghost rest = self@.skip(i as int);
            assert(rest[0] == self.conditions@[i as int]@);
            assert(rest.skip(1) =~= self@.skip(i + 1));
            match self.conditions[i].try_matches(&message.tags) {
                Some(true) => {},
                Some(false) => return Some(false),
                None => return None,
            }
            i = i + 1;
        }
        Some(true)
    }

    /// Whether the filter holds of a document.
    pub fn matches(&self, message: &Message) -> (r: bool)
        ensures
            r == filter_holds(self@, tag_values(message.tags@)),
    {
        let ghost tags = tag_values(message.tags@);
        let mut i: usize = 0;
        while i < self.conditions.len()
            invariant
                i <= self.conditions@.len(),
                self@.len() == self.conditions@.len(),
                tags == tag_values(message.tags@),
                forall|j: int| 0 <= j < i ==> #[trigger] condition_holds(self@[j], tags),
            decreases self.conditions@.len() - i,
        {
            assert(self@[i as int] == self.conditions@[i as int]@);
            if !self.conditions[i].matches(message) {
                assert(!condition_holds(self@[i as int], tags));
                return false;
            }
            i = i + 1;
        }
        true
    }

    /// The filter in words, one line per condition.
    pub fn to_text(&self) -> (s: String)
        ensures
            s@ == filter_text(self@),
    {
        if self.conditions.len() == 0 {
            return "Alle Vorlagen\n".to_owned();
        }
        let mut s = String::new();
        let mut i: usize = 0;
        assert(self@.take(0) =~= Seq::<ConditionView>::empty());
        while i < self.conditions.len()
            invariant
                i <= self.conditions@.len(),
                self@.len() == self.conditions@.len(),
                s@ == condition_lines(self@.take(i as int)),
            decreases self.conditions@.len() - i,
        {
            let ghost shown = self@.take(i + 1);
            assert(shown.drop_last() =~= self@.take(i as int));
            assert(shown.last() == self.conditions@[i as int]@);
            s.append(if i == 0 { "  " } else { "& " });
            let line = self.conditions[i].to_text();
            s.append(line.as_str());
            s.append("\n");
            i = i + 1;
        }
        assert(self@.take(self@.len() as int) =~= self@);
        s
    }
}

/// Compares two filters.
pub fn same_filter(a: &Filter, b: &Filter) -> (r: bool)
    ensures
        r == (a@ == b@),
{
    if a.conditions.len() != b.conditions.len() {
        assert(a@.len() != b@.len());
        return false;
    }
    let mut i: usize = 0;
    while i < a.conditions.len()
        invariant
            i <= a.conditions@.len(),
            a.conditions@.len() == b.conditions@.len(),
            forall|j: int| 0 <= j < i ==> #[trigger] a@[j] == b@[j],
        decreases a.conditions@.len() - i,
    {
        let x = &a.conditions[i];
        let y = &b.conditions[i];
        assert(a@[i as int] == x@ && b@[i as int] == y@);
        if x.tag != y.tag || x.negate != y.negate || !same_text(
            x.pattern.as_str(),
            y.pattern.as_str(),
        ) {
            return false;
        }
        i = i + 1;
    }
    assert(a@ =~= b@);
    true
}

/// What a list of filters says.
pub open spec fn filter_views(filters: Seq<Filter>) -> Seq<Seq<ConditionView>> {
    filters.map_values(|f: Filter| f@)
}

/// A document is wanted if one of the filters holds of it.
pub open spec fn wanted(filters: Seq<Seq<ConditionView>>, tags: Seq<(Tag, Seq<char>)>) -> bool {
    exists|i: int| 0 <= i < filters.len() && #[trigger] filter_holds(filters[i], tags)
}

/// Whether one of a chat's filters holds of a document.
pub fn matches_any(filters: &Vec<Filter>, message: &Message) -> (r: bool)
    ensures
        r == wanted(filter_views(filters@), tag_values(message.tags@)),
{
    let ghost tags = tag_values(message.tags@);
    let mut i: usize = 0;
    while i < filters.len()
        invariant
            i <= filters@.len(),
            tags == tag_values(message.tags@),
            forall|j: int|
                0 <= j < i ==> !#[trigger] filter_holds(filter_views(filters@)[j], tags),
        decreases filters@.len() - i,
    {
        assert(filter_views(filters@)[i as int] == filters@[i as int]@);
        if filters[i].matches(message) {
            assert(filter_holds(filter_views(filters@)[i as int], tags));
            return true;
        }
        i = i + 1;
    }
    false
}

/// What asking the filters one after the other answers: the first that holds
/// decides, and so does the first without an answer.
pub open spec fn filters_answer(
    filters: Seq<Seq<ConditionView>>,
    tags: Seq<(Tag, Seq<char>)>,
) -> Option<bool>
    decreases filters.len(),
{
    if filters.len() == 0 {
        Some(false)
    } else {
        match filter_answer(filters[0], tags) {
            Some(false) => filters_answer(filters.skip(1), tags),
            answer => answer,
        }
    }
}

/// Whether one of a chat's filters holds of a document, as long as no pattern
/// is met that is no regular expression.
pub fn try_matches_any(filters: &Vec<Filter>, message: &Message) -> (r: Option<bool>)
    ensures
        r == filters_answer(filter_views(filters@), tag_values(message.tags@)),
{
    let ghost tags = tag_values(message.tags@);
    let ghost views = filter_views(filters@);
    let mut i: usize = 0;
    assert(views.skip(0) =~= views);
    while i < filters.len()
        invariant
            i <= filters@.len(),
            tags == tag_values(message.tags@),
            views == filter_views(filters@),
            filters_answer(views, tags) == filters_answer(views.skip(i as int), tags),
        decreases filters@.len() - i,
    {
        let ghost rest = views.skip(i as int);
        assert(rest[0] == filters@[i as int]@);
        assert(rest.skip(1) =~= views.skip(i + 1));
        match filters[i].try_matches(message) {
            Some(false) => {},
            answer => return answer,
        }
        i = i + 1;
    }
    Some(false)
}

/// A filter without conditions holds of every document.
pub proof fn law_empty_filter_holds(tags: Seq<(Tag, Seq<char>)>)
    ensures
        filter_holds(Seq::empty(), tags),
{
}

/// A condition and its negation exclude each other, and one of them holds
/// unless the pattern is no regular expression.
pub proof fn law_negation(c: ConditionView, tags: Seq<(Tag, Seq<char>)>)
    ensures
        ({
            let n = ConditionView { negate: !c.negate, ..c };
            &&& !(condition_holds(c, tags) && condition_holds(n, tags))
            &&& is_regex(c.pattern) ==> condition_holds(c, tags) || condition_holds(n, tags)
        }),
{
    let n = ConditionView { negate: !c.negate, ..c };
    assert(tag_found(c, tags) == tag_found(n, tags)) by {
        if tag_found(c, tags) {
            let i = choose|i: int|
                0 <= i < tags.len() && #[trigger] tags[i].0 == c.tag && pattern_found(
                    c.pattern,
                    tags[i].1,
                );
            assert(tags[i].0 == n.tag);
        }
        if tag_found(n, tags) {
            let i = choose|i: int|
                0 <= i < tags.len() && #[trigger] tags[i].0 == n.tag && pattern_found(
                    n.pattern,
                    tags[i].1,
                );
            assert(tags[i].0 == c.tag);
        }
    }
}

/// More conditions never make a filter hold of more documents.
pub proof fn law_conditions_narrow(
    f: Seq<ConditionView>,
    c: ConditionView,
    tags: Seq<(Tag, Seq<char>)>,
)
    ensures
        filter_holds(f.push(c), tags) == (filter_holds(f, tags) && condition_holds(c, tags)),
{
    let g = f.push(c);
    if filter_holds(g, tags) {
        assert forall|i: int| 0 <= i < f.len() implies #[trigger] condition_holds(f[i], tags) by {
            assert(condition_holds(g[i], tags));
        }
        assert(condition_holds(g[f.len() as int], tags));
    }
}

/// Where every pattern is a regular expression, asking the conditions one
/// after the other answers whether all of them hold.
pub proof fn law_filter_answer(f: Seq<ConditionView>, tags: Seq<(Tag, Seq<char>)>)
    requires
        forall|i: int| 0 <= i < f.len() ==> is_regex(#[trigger] f[i].pattern),
    ensures
        filter_answer(f, tags) == Some(filter_holds(f, tags)),
    decreases f.len(),
{
    if f.len() > 0 {
        assert(is_regex(f[0].pattern));
        assert forall|i: int| 0 <= i < f.skip(1).len() implies is_regex(
            #[trigger] f.skip(1)[i].pattern,
        ) by {
            assert(f[i + 1].pattern == f.skip(1)[i].pattern);
        }
        law_filter_answer(f.skip(1), tags);
        if filter_holds(f.skip(1), tags) && condition_holds(f[0], tags) {
            assert forall|i: int| 0 <= i < f.len() implies #[trigger] condition_holds(f[i], tags) by {
                if i > 0 {
                    assert(condition_holds(f.skip(1)[i - 1], tags));
                }
            }
        }
        if filter_holds(f, tags) {
            assert(condition_holds(f[0], tags));
            assert forall|i: int| 0 <= i < f.skip(1).len() implies #[trigger] condition_holds(
                f.skip(1)[i],
                tags,
            ) by {
                assert(condition_holds(f[i + 1], tags));
            }
        }
    }
}

/// Every rule counts: whatever asking each rule by itself answers, a document is
/// wanted exactly if one of the answers is yes.
pub proof fn law_every_rule_counts(
    filters: Vec<Filter>,
    message: Message,
    answers: Seq<bool>,
    r: bool,
)
    requires
        call_ensures(matches_any, (&filters, &message), r),
        answers.len() == filters@.len(),
        forall|i: int|
            0 <= i < filters@.len() ==> call_ensures(
                Filter::matches,
                (&filters@[i], &message),
                #[trigger] answers[i],
            ),
    ensures
        r <==> answers.contains(true),
{
    let tags = tag_values(message.tags@);
    let views = filter_views(filters@);
    if r {
        let i = choose|i: int| 0 <= i < views.len() && #[trigger] filter_holds(views[i], tags);
        assert(answers[i]);
    }
    if answers.contains(true) {
        let i = answers.index_of(true);
        assert(answers[i]);
        assert(filter_holds(views[i], tags));
    }
}

/// Every condition of a rule counts: whatever asking each condition by itself
/// answers, the rule holds exactly if no answer is no.
pub proof fn law_every_condition_counts(
    filter: Filter,
    message: Message,
    answers: Seq<bool>,
    r: bool,
)
    requires
        call_ensures(Filter::matches, (&filter, &message), r),
        answers.len() == filter.conditions@.len(),
        forall|i: int|
            0 <= i < filter.conditions@.len() ==> call_ensures(
                Condition::matches,
                (&filter.conditions@[i], &message),
                #[trigger] answers[i],
            ),
    ensures
        r <==> !answers.contains(false),
{
    let tags = tag_values(message.tags@);
    if r {
        if answers.contains(false) {
            let i = answers.index_of(false);
            assert(condition_holds(filter@[i], tags));
            assert(answers[i]);
        }
    } else {
        let i = choose|i: int| 0 <= i < filter@.len() && !#[trigger] condition_holds(filter@[i], tags);
        assert(!answers[i]);
    }
}

/// What a condition asks: that its pattern is found in some value of its tag,
/// or, if it is negated, in none. A pattern that is no regular expression asks
/// for what no document has.
pub proof fn law_condition_asks_for_its_tag(condition: Condition, message: Message, r: bool)
    requires
        call_ensures(Condition::matches, (&condition, &message), r),
    ensures
        r ==> is_regex(condition.pattern@),
        is_regex(condition.pattern@) && !condition.negate ==> (r <==> exists|i: int|
            0 <= i < message.tags@.len() && (#[trigger] message.tags@[i]).0 == condition.tag
                && pattern_found(condition.pattern@, message.tags@[i].1@)),
        is_regex(condition.pattern@) && condition.negate ==> (r <==> forall|i: int|
            0 <= i < message.tags@.len() && (#[trigger] message.tags@[i]).0 == condition.tag
                ==> !pattern_found(condition.pattern@, message.tags@[i].1@)),
{
    let tags = tag_values(message.tags@);
    let c = condition@;
    if tag_found(c, tags) {
        let i = choose|i: int|
            0 <= i < tags.len() && #[trigger] tags[i].0 == c.tag && pattern_found(
                c.pattern,
                tags[i].1,
            );
        assert(message.tags@[i].0 == condition.tag);
    }
    if exists|i: int|
        0 <= i < message.tags@.len() && (#[trigger] message.tags@[i]).0 == condition.tag
            && pattern_found(condition.pattern@, message.tags@[i].1@) {
        let i = choose|i: int|
            0 <= i < message.tags@.len() && (#[trigger] message.tags@[i]).0 == condition.tag
                && pattern_found(condition.pattern@, message.tags@[i].1@);
        assert(tags[i].0 == c.tag);
    }
}

/// Asking a condition carefully gives an answer exactly if its pattern is a
/// regular expression, and then the same one.
pub proof fn law_careful_condition_agrees(
    condition: Condition,
    message: Message,
    careful: Option<bool>,
    r: bool,
)
    requires
        call_ensures(Condition::try_matches, (&condition, &message.tags), careful),
        call_ensures(Condition::matches, (&condition, &message), r),
    ensures
        careful == (if is_regex(condition.pattern@) {
            Some(r)
        } else {
            None
        }),
{
}

/// What asking things in turn comes to, where each may be the last one asked.
pub open spec fn first_other(answers: Seq<Option<bool>>, go_on: Option<bool>) -> Option<bool>
    decreases answers.len(),
{
    if answers.len() == 0 {
        go_on
    } else if answers[0] != go_on {
        answers[0]
    } else {
        first_other(answers.skip(1), go_on)
    }
}

proof fn lemma_first_other(answers: Seq<Option<bool>>, go_on: Option<bool>, k: int)
    requires
        0 <= k <= answers.len(),
        forall|i: int| 0 <= i < k ==> #[trigger] answers[i] == go_on,
        k < answers.len() ==> answers[k] != go_on,
    ensures
        first_other(answers, go_on) == (if k < answers.len() {
            answers[k]
        } else {
            go_on
        }),
    decreases answers.len(),
{
    if k > 0 {
        assert(answers[0] == go_on);
        assert forall|i: int| 0 <= i < k - 1 implies #[trigger] answers.skip(1)[i] == go_on by {
            assert(answers[i + 1] == go_on);
        }
        lemma_first_other(answers.skip(1), go_on, k - 1);
    }
}

/// Asking a rule carefully goes on as long as conditions hold: the first
/// condition that does not, or has no answer, decides.
pub proof fn law_careful_rule_stops_at_first(
    filter: Filter,
    message: Message,
    answers: Seq<Option<bool>>,
    r: Option<bool>,
    k: int,
)
    requires
        call_ensures(Filter::try_matches, (&filter, &message), r),
        answers.len() == filter.conditions@.len(),
        forall|i: int|
            0 <= i < filter.conditions@.len() ==> call_ensures(
                Condition::try_matches,
                (&filter.conditions@[i], &message.tags),
                #[trigger] answers[i],
            ),
        0 <= k <= answers.len(),
        forall|i: int| 0 <= i < k ==> #[trigger] answers[i] == Some(true),
        k < answers.len() ==> answers[k] != Some(true),
    ensures
        k < answers.len() ==> r == answers[k],
        k == answers.len() ==> r == Some(true),
{
    lemma_first_other(answers, Some(true), k);
    let tags = tag_values(message.tags@);
    assert forall|i: int| 0 <= i < filter@.len() implies #[trigger] answers[i] == (if is_regex(
        filter@[i].pattern,
    ) {
        Some(condition_holds(filter@[i], tags))
    } else {
        None
    }) by {
        assert(filter@[i] == filter.conditions@[i]@);
    }
    lemma_filter_answer(filter@, tags, answers);
}

proof fn lemma_filter_answer(
    f: Seq<ConditionView>,
    tags: Seq<(Tag, Seq<char>)>,
    answers: Seq<Option<bool>>,
)
    requires
        answers.len() == f.len(),
        forall|i: int|
            0 <= i < f.len() ==> #[trigger] answers[i] == (if is_regex(f[i].pattern) {
                Some(condition_holds(f[i], tags))
            } else {
                None
            }),
    ensures
        filter_answer(f, tags) == first_other(answers, Some(true)),
    decreases f.len(),
{
    if f.len() > 0 {
        assert(answers[0] == answers[0]);
        assert forall|i: int| 0 <= i < f.skip(1).len() implies #[trigger] answers.skip(1)[i] == (
        if is_regex(f.skip(1)[i].pattern) {
            Some(condition_holds(f.skip(1)[i], tags))
        } else {
            None
        }) by {
            assert(answers.skip(1)[i] == answers[i + 1]);
        }
        lemma_filter_answer(f.skip(1), tags, answers.skip(1));
    }
}

/// Asking a chat's rules carefully goes on as long as rules do not hold: the
/// first rule that does, or has no answer, decides.
pub proof fn law_careful_rules_stop_at_first(
    filters: Vec<Filter>,
    message: Message,
    answers: Seq<Option<bool>>,
    r: Option<bool>,
    k: int,
)
    requires
        call_ensures(try_matches_any, (&filters, &message), r),
        answers.len() == filters@.len(),
        forall|i: int|
            0 <= i < filters@.len() ==> call_ensures(
                Filter::try_matches,
                (&filters@[i], &message),
                #[trigger] answers[i],
            ),
        0 <= k <= answers.len(),
        forall|i: int| 0 <= i < k ==> #[trigger] answers[i] == Some(false),
        k < answers.len() ==> answers[k] != Some(false),
    ensures
        k < answers.len() ==> r == answers[k],
        k == answers.len() ==> r == Some(false),
{
    lemma_first_other(answers, Some(false), k);
    let tags = tag_values(message.tags@);
    let views = filter_views(filters@);
    assert forall|i: int| 0 <= i < views.len() implies #[trigger] answers[i] == filter_answer(
        views[i],
        tags,
    ) by {
        assert(views[i] == filters@[i]@);
    }
    lemma_filters_answer(views, tags, answers);
}

proof fn lemma_filters_answer(
    views: Seq<Seq<ConditionView>>,
    tags: Seq<(Tag, Seq<char>)>,
    answers: Seq<Option<bool>>,
)
    requires
        answers.len() == views.len(),
        forall|i: int|
            0 <= i < views.len() ==> #[trigger] answers[i] == filter_answer(views[i], tags),
    ensures
        filters_answer(views, tags) == first_other(answers, Some(false)),
    decreases views.len(),
{
    if views.len() > 0 {
        assert(answers[0] == filter_answer(views[0], tags));
        assert forall|i: int| 0 <= i < views.skip(1).len() implies #[trigger] answers.skip(1)[i]
            == filter_answer(views.skip(1)[i], tags) by {
            assert(answers.skip(1)[i] == answers[i + 1]);
        }
        lemma_filters_answer(views.skip(1), tags, answers.skip(1));
    }
}

/// Two rules are taken for the same exactly if they have the same conditions in
/// the same order, each with its tag, its pattern and whether it is negated.
pub proof fn law_same_rules_ask_the_same(a: Filter, b: Filter, r: bool)
    requires
        call_ensures(same_filter, (&a, &b), r),
    ensures
        r <==> a.conditions@.len() == b.conditions@.len() && forall|i: int|
            0 <= i < a.conditions@.len() ==> (#[trigger] a.conditions@[i]).tag
                == b.conditions@[i].tag && a.conditions@[i].pattern@ == b.conditions@[i].pattern@
                && a.conditions@[i].negate == b.conditions@[i].negate,
{
    if r {
        assert(a@.len() == b@.len());
        assert forall|i: int| 0 <= i < a.conditions@.len() implies (
        #[trigger] a.conditions@[i]).tag == b.conditions@[i].tag && a.conditions@[i].pattern@
            == b.conditions@[i].pattern@ && a.conditions@[i].negate == b.conditions@[i].negate by {
            assert(a@[i] == b@[i]);
        }
    } else if a.conditions@.len() == b.conditions@.len() && forall|i: int|
        0 <= i < a.conditions@.len() ==> (#[trigger] a.conditions@[i]).tag == b.conditions@[i].tag
            && a.conditions@[i].pattern@ == b.conditions@[i].pattern@ && a.conditions@[i].negate
            == b.conditions@[i].negate {
        assert forall|i: int| 0 <= i < a@.len() implies a@[i] == b@[i] by {
            assert(a.conditions@[i].tag == b.conditions@[i].tag);
        }
        assert(a@ =~= b@);
    }
}

/// The words for a rule grow line by line: a further condition appends one line,
/// which says what the condition says by itself.
pub proof fn law_rule_words_grow(
    less: Filter,
    more: Filter,
    condition: Condition,
    words: String,
    longer: String,
    line: String,
)
    requires
        more.conditions@ == less.conditions@.push(condition),
        call_ensures(Filter::to_text, (&less,), words),
        call_ensures(Filter::to_text, (&more,), longer),
        call_ensures(Condition::to_text, (&condition,), line),
    ensures
        less.conditions@.len() == 0 ==> words@ == "Alle Vorlagen\n"@ && longer@ == "  "@ + line@
            + "\n"@,
        less.conditions@.len() > 0 ==> longer@ == words@ + "& "@ + line@ + "\n"@,
{
    assert(more@ =~= less@.push(condition@));
    assert(more@.drop_last() =~= less@);
    if less@.len() == 0 {
        assert(condition_lines(less@) =~= Seq::empty());
        assert(longer@ =~= "  "@ + line@ + "\n"@);
    } else {
        assert(longer@ =~= words@ + "& "@ + line@ + "\n"@);
    }
}

/// The words for a condition name its tag and its pattern, and say "nicht"
/// exactly if it is negated.
pub proof fn law_condition_words(condition: Condition, label: &'static str, words: String)
    requires
        call_ensures(Tag::label, (&condition.tag,), label),
        call_ensures(Condition::to_text, (&condition,), words),
    ensures
        !condition.negate ==> words@ == label@ + " passt zu \""@ + condition.pattern@ + "\""@,
        condition.negate ==> words@ == label@ + " passt nicht zu \""@ + condition.pattern@
            + "\""@,
{
    reveal_strlit(" passt ");
    reveal_strlit("nicht ");
    reveal_strlit("");
    reveal_strlit("zu \"");
    reveal_strlit(" passt zu \"");
    reveal_strlit(" passt nicht zu \"");
    if condition.negate {
        assert(" passt "@ + "nicht "@ + "zu \""@ =~= " passt nicht zu \""@);
        assert(words@ =~= label@ + (" passt "@ + "nicht "@ + "zu \""@) + condition.pattern@
            + "\""@);
    } else {
        assert(" passt "@ + ""@ + "zu \""@ =~= " passt zu \""@);
        assert(words@ =~= label@ + (" passt "@ + ""@ + "zu \""@) + condition.pattern@ + "\""@);
    }
}

/// All tags are offered, each of them once.
pub proof fn law_tags_are_complete(tags: Vec<Tag>, tag: Tag)
    requires
        call_ensures(Tag::tags, (), tags),
    ensures
        tags@.contains(tag),
        tags@.no_duplicates(),
{
    let i: int = match tag {
        Tag::Dsnr => 0,
        Tag::Art => 1,
        Tag::Beteiligt => 2,
        Tag::Federfuehrend => 3,
        Tag::Gremium => 4,
        Tag::Verfasser => 5,
    };
    assert(tags@[i] == tag);
}

/// Each tag is called what it is, and no two are called the same.
pub proof fn law_tags_have_names(tag: Tag, label: &'static str)
    requires
        call_ensures(Tag::label, (&tag,), label),
    ensures
        tag is Dsnr ==> label@ == "Drucksachen-Nummer"@,
        tag is Art ==> label@ == "Art der Vorlage"@,
        tag is Gremium ==> label@ == "Gremium"@,
        tag is Verfasser ==> label@ == "Antrag- oder Fragesteller:in"@,
        tag is Federfuehrend ==> label@ == "Federführendes Amt"@,
        tag is Beteiligt ==> label@ == "Beteiligtes Amt"@,
{
}

/// Tags whose names do not say it all are described, the others are not. Each
/// has examples, and those of the two kinds of offices are the same.
pub proof fn law_tags_are_described(
    tag: Tag,
    description: Option<&'static str>,
    examples: Vec<&'static str>,
    leading: Vec<&'static str>,
    involved: Vec<&'static str>,
)
    requires
        call_ensures(Tag::description, (&tag,), description),
        call_ensures(Tag::examples, (&tag,), examples),
        call_ensures(Tag::examples, (&Tag::Federfuehrend,), leading),
        call_ensures(Tag::examples, (&Tag::Beteiligt,), involved),
    ensures
        tag is Gremium <==> description is Some && description->0@
            == "Gremien, die zur Beratung der Vorlage vorgesehen sind."@,
        tag is Verfasser <==> description is Some && description->0@
            == "Personen oder Fraktionen, die den Antrag oder die Frage gestellt haben."@,
        tag is Beteiligt <==> description is Some && description->0@
            == "Jedes an der Vorlage beteiligte Amt. Das schließt auch das federführende Amt mit ein."@,
        examples@.len() > 0,
        tag is Gremium ==> examples@[0]@ == "Rat"@,
        tag is Dsnr ==> examples@[0]@ == "252807"@,
        texts(leading@) == texts(involved@),
{
    reveal_strlit("Gremien, die zur Beratung der Vorlage vorgesehen sind.");
    reveal_strlit("Personen oder Fraktionen, die den Antrag oder die Frage gestellt haben.");
    reveal_strlit(
        "Jedes an der Vorlage beteiligte Amt. Das schließt auch das federführende Amt mit ein.",
    );
    assert("Gremien, die zur Beratung der Vorlage vorgesehen sind."@[0] == 'G');
    assert("Personen oder Fraktionen, die den Antrag oder die Frage gestellt haben."@[0] == 'P');
    assert("Jedes an der Vorlage beteiligte Amt. Das schließt auch das federführende Amt mit ein."@[0]
        == 'J');
    assert(texts(examples@).len() == examples@.len());
    assert(texts(examples@)[0] == examples@[0]@);
}

/// A value counts exactly if it belongs to the tag and the pattern was found in
/// it.
pub proof fn law_found_values_count(
    tags: Vec<(Tag, String)>,
    tag: Tag,
    found: Vec<bool>,
    r: bool,
    i: int,
)
    requires
        found@.len() == tags@.len(),
        call_ensures(any_found, (&tags, tag, &found), r),
    ensures
        0 <= i < tags@.len() && tags@[i].0 == tag && found@[i] ==> r,
        r ==> exists|j: int| 0 <= j < tags@.len() && (#[trigger] tags@[j]).0 == tag && found@[j],
{
}

} // verus!
