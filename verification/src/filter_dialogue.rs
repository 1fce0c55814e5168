//! A dialogue in which filters are set up step by step: tag, negation, pattern.

use vstd::prelude::*;
use vstd::string::*;

use crate::text::{decimal_string, parse_number, same_text, strip_prefix};
use crate::types::{accepts_pattern, ChatId, Condition, Filter, Tag};

verus! {

use crate::text::{decimal, opt_text, parsed_number, stripped};
use crate::types::{
    condition_views, filter_text, filter_views, is_regex, ConditionView,
};

pub const SAVE: &'static str = "Speichern";

pub const TAG_HINT: &'static str = "Tag auswählen";

pub const ANSWER_HINT: &'static str = "Antwort auswählen";

pub const IF_MATCHES: &'static str = "Wenn das Pattern zutrifft";

pub const UNLESS_MATCHES: &'static str = "Wenn das Pattern nicht zutrifft";

pub const NOTHING_ACTIVE: &'static str = "Kein Befehl aktiv ...";

pub const CANCELLED: &'static str = "Befehl wurde abgebrochen!";

pub const INTERNAL_ERROR: &'static str = "Interner Fehler :((";

pub const NO_ADMIN: &'static str = "Du hast keine Admin-Rechte in diesem Channel, Abbruch!";

pub const CHANNEL_BUTTON: &'static str = "Channel auswählen";

pub const CHOOSE_CHANNEL: &'static str = "Bitte wähle einen Channel aus.";

pub const CHANNEL_CHOSEN: &'static str = "Channel wurde ausgewählt!";

pub const UPDATE_OK: &'static str = "OK!";

pub const UPDATE_FAILED: &'static str = "Ein Fehler ist aufgetreten. Schau im Log nach!";

pub const INVALID_INPUT: &'static str = "Ungültige Eingabe, Abbruch!";

pub const FILTER_REMOVED: &'static str = "Alles klar, Filter wurde entfernt!";

pub const NO_SUCH_FILTER: &'static str = "Diesen Filter scheint es nicht zu geben :/";

pub const NO_FILTERS: &'static str = "Zur Zeit sind keine Filter aktiv.";

pub const ACTIVE_FILTERS: &'static str = "Zur Zeit sind folgende Filter aktiv:\n\n";

pub const CHOOSE_FILTER: &'static str = "Wähle einen der folgenden Filter zum Löschen:\n\n";

pub const FILTERS_REMOVED: &'static str = "Deine Filter wurden entfernt.";

pub const NO_FILTERS_REMOVED: &'static str = "Es waren keine Filter aktiv.";

pub const FILTER_SAVED: &'static str = "Filter gespeichert!";

pub const INVALID_TAG: &'static str = "Ungültiger Tag! Versuche es noch mal";

pub const ASK_NEGATION: &'static str = "Wann soll die Bedingung erfüllt sein?";

pub const ASK_PATTERN: &'static str = "Gib nun ein Regex-Pattern ein.";

pub const INVALID_PATTERN: &'static str = "Ungültiges Regex-Muster. Bitte versuche es erneut:";

pub const CONDITION_ADDED: &'static str = "Bedingung hinzugefügt! Bisherige Bedingungen:\n";

pub const CONDITION_ADDED_END: &'static str =
    "\nGib einen weiteren Tag ein oder speichere den Filter.";

pub const NEW_FILTER: &'static str =
    "Lass uns einen Filter einrichten! Du kannst den Filter auch sofort speichern, um alle Vorlagen einzuschließen.\n\nBitte gib den ersten Tag ein:";

/// What the bot waits for.
#[derive(Debug, PartialEq, Eq)]
pub enum State {
    Start,
    ReceiveChannelSelection { request_id: i32 },
    ReceivingTag { previous_conditions: Vec<Condition> },
    ReceivingNegation { previous_conditions: Vec<Condition>, tag: Tag },
    ReceivingPattern { previous_conditions: Vec<Condition>, tag: Tag, negation: bool },
    DeletingFilter,
}

/// What the bot waits for, and which channel is configured.
#[derive(Debug, PartialEq, Eq)]
pub struct StateWithChannel {
    pub channel: Option<ChatId>,
    pub state: State,
}

impl Default for StateWithChannel {
    fn default() -> (r: Self)
        ensures
            r == (StateWithChannel { channel: None, state: State::Start }),
    {
        StateWithChannel { channel: None, state: State::Start }
    }
}

/// A keyboard of texts, which is shown until a button is pressed.
#[derive(Debug, PartialEq, Eq)]
pub struct TextKeyboard {
    pub rows: Vec<Vec<String>>,
    pub placeholder: Option<&'static str>,
    /// The keyboard is as small as its buttons allow.
    pub resize: bool,
}

/// Rights of an administrator of a channel. There are no other ones among those
/// that are asked for.
#[derive(Debug, Clone, Copy, PartialEq, Eq, Structural)]
pub struct Rights {
    pub can_invite_users: bool,
    pub can_post_messages: bool,
}

/// A keyboard with a single button, which lets the user share a channel. It is
/// shown until the button is pressed, and as small as the button allows.
#[derive(Debug, PartialEq, Eq)]
pub struct ChannelRequest {
    pub text: String,
    /// The request that the shared channel answers.
    pub request_id: i32,
    /// The rights that the user must have in the channel.
    pub user_rights: Rights,
    /// The rights that the bot must have in the channel.
    pub bot_rights: Rights,
}

/// What a user can choose from.
#[derive(Debug, PartialEq, Eq)]
pub enum Keyboard {
    Texts(TextKeyboard),
    Channel(ChannelRequest),
}

/// What rows of texts say.
pub open spec fn text_rows(rows: Seq<Vec<String>>) -> Seq<Seq<Seq<char>>> {
    rows.map_values(|row: Vec<String>| row@.map_values(|s: String| s@))
}

/// What is done to the stored state.
#[derive(Debug, PartialEq, Eq)]
pub enum Write {
    Keep,
    /// Back to the start, without a channel.
    Reset,
    /// Nothing is remembered.
    Exit,
    Update(StateWithChannel),
}

/// A reply, with a keyboard if there is something to choose.
#[derive(Debug, PartialEq, Eq)]
pub struct Reply {
    pub text: String,
    pub keyboard: Option<Keyboard>,
}

/// What is done about a message. A reply that comes first is sent before the
/// state is written.
#[derive(Debug, PartialEq, Eq)]
pub struct Outcome {
    pub write: Write,
    pub reply: Option<Reply>,
    pub reply_first: bool,
}

/// Nothing is done.
pub open spec fn is_nothing(o: Outcome) -> bool {
    o.write is Keep && o.reply is None
}

/// The reply is a text without a keyboard.
pub open spec fn says(o: Outcome, text: Seq<char>) -> bool {
    match o.reply {
        Some(reply) => reply.text@ == text && reply.keyboard is None,
        None => false,
    }
}

/// The reply is a text with a keyboard of texts.
pub open spec fn asks(
    o: Outcome,
    text: Seq<char>,
    rows: Seq<Seq<Seq<char>>>,
    placeholder: Option<Seq<char>>,
    resize: bool,
) -> bool {
    match o.reply {
        Some(reply) => reply.text@ == text && match reply.keyboard {
            Some(Keyboard::Texts(k)) => {
                &&& text_rows(k.rows@) == rows
                &&& opt_text(k.placeholder) == placeholder
                &&& k.resize == resize
            },
            _ => false,
        },
        None => false,
    }
}

/// The reply is a text with a button to share a channel that the user may
/// invite others to, and that both the user and the bot may post to.
pub open spec fn asks_for_channel(o: Outcome, text: Seq<char>, request_id: i32) -> bool {
    match o.reply {
        Some(reply) => reply.text@ == text && match reply.keyboard {
            Some(Keyboard::Channel(k)) => {
                &&& k.text@ == CHANNEL_BUTTON@
                &&& k.request_id == request_id
                &&& k.user_rights == (Rights { can_invite_users: true, can_post_messages: true })
                &&& k.bot_rights == (Rights { can_invite_users: false, can_post_messages: true })
            },
            _ => false,
        },
        None => false,
    }
}

fn nothing() -> (r: Outcome)
    ensures
        is_nothing(r),
{
    Outcome { write: Write::Keep, reply: None, reply_first: false }
}

fn say(write: Write, text: &str) -> (r: Outcome)
    ensures
        r.write == write,
        says(r, text@),
        !r.reply_first,
{
    Outcome {
        write,
        reply: Some(Reply { text: text.to_owned(), keyboard: None }),
        reply_first: false,
    }
}

fn ask(write: Write, text: &str, keyboard: TextKeyboard, reply_first: bool) -> (r: Outcome)
    ensures
        r.write == write,
        asks(
            r,
            text@,
            text_rows(keyboard.rows@),
            opt_text(keyboard.placeholder),
            keyboard.resize,
        ),
        r.reply_first == reply_first,
{
    Outcome {
        write,
        reply: Some(Reply { text: text.to_owned(), keyboard: Some(Keyboard::Texts(keyboard)) }),
        reply_first,
    }
}

/// The labels of the tags in rows of two, below the button to save.
pub open spec fn tag_rows() -> Seq<Seq<Seq<char>>> {
    seq![
        seq![SAVE@],
        seq![Tag::Dsnr.spec_label(), Tag::Art.spec_label()],
        seq![Tag::Beteiligt.spec_label(), Tag::Federfuehrend.spec_label()],
        seq![Tag::Gremium.spec_label(), Tag::Verfasser.spec_label()],
    ]
}

fn row2(a: &str, b: &str) -> (r: Vec<String>)
    ensures
        r@.map_values(|s: String| s@) == seq![a@, b@],
{
    let r = vec![a.to_owned(), b.to_owned()];
    assert(r@.map_values(|s: String| s@) =~= seq![a@, b@]);
    r
}

fn row1(a: &str) -> (r: Vec<String>)
    ensures
        r@.map_values(|s: String| s@) == seq![a@],
{
    let r = vec![a.to_owned()];
    assert(r@.map_values(|s: String| s@) =~= seq![a@]);
    r
}

/// The keyboard for the choice of a tag.
pub fn tag_keyboard() -> (r: TextKeyboard)
    ensures
        text_rows(r.rows@) == tag_rows(),
        opt_text(r.placeholder) == Some(TAG_HINT@),
        r.resize,
{
    let rows = vec![
        row1(SAVE),
        row2(Tag::Dsnr.label(), Tag::Art.label()),
        row2(Tag::Beteiligt.label(), Tag::Federfuehrend.label()),
        row2(Tag::Gremium.label(), Tag::Verfasser.label()),
    ];
    assert(text_rows(rows@) =~= tag_rows());
    TextKeyboard { rows, placeholder: Some(TAG_HINT), resize: true }
}

/// The keyboard for the choice whether a condition is negated.
pub fn negation_keyboard() -> (r: TextKeyboard)
    ensures
        text_rows(r.rows@) == seq![seq![IF_MATCHES@], seq![UNLESS_MATCHES@]],
        opt_text(r.placeholder) == Some(ANSWER_HINT@),
        r.resize,
{
    let rows = vec![row1(IF_MATCHES), row1(UNLESS_MATCHES)];
    assert(text_rows(rows@) =~= seq![seq![IF_MATCHES@], seq![UNLESS_MATCHES@]]);
    TextKeyboard { rows, placeholder: Some(ANSWER_HINT), resize: true }
}

/// The tag with a given label.
pub open spec fn labelled(tag: Tag, label: Seq<char>) -> bool {
    tag.spec_label() == label
}

/// Finds the tag with a given label.
pub fn tag_labelled(label: &str) -> (r: Option<Tag>)
    ensures
        match r {
            Some(tag) => labelled(tag, label@),
            None => forall|tag: Tag| !labelled(tag, label@),
        },
        forall|other: Tag| (#[trigger] other.spec_label()) == label@ ==> r is Some,
{
    if same_text(label, Tag::Dsnr.label()) {
        Some(Tag::Dsnr)
    } else if same_text(label, Tag::Art.label()) {
        Some(Tag::Art)
    } else if same_text(label, Tag::Verfasser.label()) {
        Some(Tag::Verfasser)
    } else if same_text(label, Tag::Federfuehrend.label()) {
        Some(Tag::Federfuehrend)
    } else if same_text(label, Tag::Beteiligt.label()) {
        Some(Tag::Beteiligt)
    } else if same_text(label, Tag::Gremium.label()) {
        Some(Tag::Gremium)
    } else {
        None
    }
}

/// What the dialogue is cancelled with.
pub fn cancel(state: &StateWithChannel) -> (r: Outcome)
    ensures
        r.write == Write::Reset,
        says(
            r,
            if state.state is Start {
                NOTHING_ACTIVE@
            } else {
                CANCELLED@
            },
        ),
        !r.reply_first,
{
    match state.state {
        State::Start => say(Write::Reset, NOTHING_ACTIVE),
        _ => say(Write::Reset, CANCELLED),
    }
}

/// Starts a new filter.
pub fn add_filter(channel: Option<ChatId>) -> (r: Outcome)
    ensures
        r.write matches Write::Update(s) && s.channel == channel && (s.state matches State::ReceivingTag {
            previous_conditions,
        } && previous_conditions@.len() == 0),
        asks(r, NEW_FILTER@, tag_rows(), Some(TAG_HINT@), true),
        !r.reply_first,
{
    let state = State::ReceivingTag { previous_conditions: Vec::new() };
    ask(Write::Update(StateWithChannel { channel, state }), NEW_FILTER, tag_keyboard(), false)
}

/// What is done about the choice of a tag.
#[derive(Debug, PartialEq, Eq)]
pub enum TagOutcome {
    /// Add the filter to those of the chat, and go on with [`filter_saved`].
    Save(Filter),
    Done(Outcome),
}

/// What is done about the choice of a tag, or about a filter that has to be
/// saved.
pub open spec fn tag_received(
    r: TagOutcome,
    previous: Vec<Condition>,
    text: Option<Seq<char>>,
    channel: Option<ChatId>,
) -> bool {
    match text {
        None => r matches TagOutcome::Done(o) && is_nothing(o),
        Some(t) => if t == SAVE@ {
            r == TagOutcome::Save(Filter { conditions: previous })
        } else if exists|tag: Tag| labelled(tag, t) {
            r matches TagOutcome::Done(o) && o.reply_first && asks(
                o,
                ASK_NEGATION@,
                seq![seq![IF_MATCHES@], seq![UNLESS_MATCHES@]],
                Some(ANSWER_HINT@),
                true,
            ) && match o.write {
                Write::Update(s) => s.channel == channel && match s.state {
                    State::ReceivingNegation { previous_conditions, tag } => previous_conditions
                        == previous && labelled(tag, t),
                    _ => false,
                },
                _ => false,
            }
        } else {
            r matches TagOutcome::Done(o) && o.write is Keep && asks(
                o,
                INVALID_TAG@,
                tag_rows(),
                Some(TAG_HINT@),
                true,
            )
        },
    }
}

/// Takes up the choice of a tag, or that the filter has to be saved.
pub fn receive_tag(
    previous_conditions: Vec<Condition>,
    text: Option<&str>,
    channel: Option<ChatId>,
) -> (r: TagOutcome)
    ensures
        tag_received(r, previous_conditions, opt_text(text), channel),
{
    let text = match text {
        Some(text) => text,
        None => return TagOutcome::Done(nothing()),
    };
    if same_text(text, SAVE) {
        return TagOutcome::Save(Filter { conditions: previous_conditions });
    }
    match tag_labelled(text) {
        Some(tag) => {
            let state = State::ReceivingNegation { previous_conditions, tag };
            assert(labelled(tag, text@));
            TagOutcome::Done(
                ask(
                    Write::Update(StateWithChannel { channel, state }),
                    ASK_NEGATION,
                    negation_keyboard(),
                    true,
                ),
            )
        },
        None => TagOutcome::Done(ask(Write::Keep, INVALID_TAG, tag_keyboard(), false)),
    }
}

/// Ends the set-up of a filter that was saved.
pub fn filter_saved() -> (r: Outcome)
    ensures
        r.write is Exit,
        says(r, FILTER_SAVED@),
        r.reply_first,
{
    let mut r = say(Write::Exit, FILTER_SAVED);
    r.reply_first = true;
    r
}

/// Takes up whether a condition is negated. Any answer but one means that it is
/// not.
pub fn receive_negation(
    previous_conditions: Vec<Condition>,
    tag: Tag,
    text: Option<&str>,
    channel: Option<ChatId>,
) -> (r: Outcome)
    ensures
        r.write == Write::Update(
            StateWithChannel {
                channel,
                state: State::ReceivingPattern {
                    previous_conditions,
                    tag,
                    negation: opt_text(text) == Some(UNLESS_MATCHES@),
                },
            },
        ),
        says(r, ASK_PATTERN@),
        !r.reply_first,
{
    let negation = match text {
        Some(text) => same_text(text, UNLESS_MATCHES),
        None => false,
    };
    let state = State::ReceivingPattern { previous_conditions, tag, negation };
    say(Write::Update(StateWithChannel { channel, state }), ASK_PATTERN)
}

/// The text that is shown when a condition was added.
pub open spec fn added_text(conditions: Seq<ConditionView>) -> Seq<char> {
    CONDITION_ADDED@ + filter_text(conditions) + CONDITION_ADDED_END@
}

/// What is done about a pattern.
pub open spec fn pattern_received(
    r: Outcome,
    previous: Seq<ConditionView>,
    condition: ConditionView,
    accepted: bool,
    channel: Option<ChatId>,
) -> bool {
    if accepted {
        let conditions = previous.push(condition);
        &&& asks(r, added_text(conditions), tag_rows(), Some(TAG_HINT@), true)
        &&& !r.reply_first
        &&& match r.write {
            Write::Update(s) => s.channel == channel && match s.state {
                State::ReceivingTag { previous_conditions } => condition_views(
                    previous_conditions@,
                ) == conditions,
                _ => false,
            },
            _ => false,
        }
    } else {
        &&& r.write is Keep
        &&& says(r, INVALID_PATTERN@)
    }
}

/// Takes up a pattern of which it is known whether it is a regular expression.
pub fn on_pattern(
    previous_conditions: Vec<Condition>,
    condition: Condition,
    accepted: bool,
    channel: Option<ChatId>,
) -> (r: Outcome)
    ensures
        pattern_received(
            r,
            condition_views(previous_conditions@),
            condition@,
            accepted,
            channel,
        ),
{
    if !accepted {
        return say(Write::Keep, INVALID_PATTERN);
    }
    let mut conditions = previous_conditions;
    conditions.push(condition);
    let filter = Filter { conditions };
    assert(filter@ =~= condition_views(previous_conditions@).push(condition@));
    let mut text = CONDITION_ADDED.to_owned();
    let shown = filter.to_text();
    text.append(shown.as_str());
    text.append(CONDITION_ADDED_END);
    let state = State::ReceivingTag { previous_conditions: filter.conditions };
    ask(
        Write::Update(StateWithChannel { channel, state }),
        text.as_str(),
        tag_keyboard(),
        false,
    )
}

/// Takes up a pattern.
pub fn receive_pattern(
    previous_conditions: Vec<Condition>,
    tag: Tag,
    negate: bool,
    text: Option<&str>,
    channel: Option<ChatId>,
) -> (r: Outcome)
    ensures
        match opt_text(text) {
            None => is_nothing(r),
            Some(pattern) => pattern_received(
                r,
                condition_views(previous_conditions@),
                ConditionView { tag, pattern, negate },
                is_regex(pattern),
                channel,
            ),
        },
{
    let pattern = match text {
        Some(text) => text,
        None => return nothing(),
    };
    let accepted = accepts_pattern(pattern);
    let condition = Condition { tag, pattern: pattern.to_owned(), negate };
    on_pattern(previous_conditions, condition, accepted, channel)
}

/// The number of a filter, as it is counted from one on.
pub open spec fn filter_number(text: Option<Seq<char>>) -> Option<nat> {
    match text {
        None => None,
        Some(t) => match stripped(t, "Filter "@) {
            None => None,
            Some(rest) => match parsed_number(rest, usize::MAX as nat) {
                Some(n) if n > 0 => Some(n),
                _ => None,
            },
        },
    }
}

/// The index of the filter that a text names.
pub fn filter_index(text: Option<&str>) -> (r: Option<usize>)
    ensures
        match r {
            Some(i) => filter_number(opt_text(text)) == Some((i + 1) as nat),
            None => filter_number(opt_text(text)) is None,
        },
{
    let text = match text {
        Some(text) => text,
        None => return None,
    };
    match strip_prefix(text, "Filter ") {
        None => None,
        Some(rest) => match parse_number(rest) {
            Some(n) => {
                if n > 0 && n <= usize::MAX as u64 {
                    Some((n - 1) as usize)
                } else {
                    None
                }
            },
            None => None,
        },
    }
}

/// Removes the filter at an index, if there is one.
pub fn remove_at(filters: &mut Vec<Filter>, index: usize) -> (removed: bool)
    ensures
        removed == (index < old(filters)@.len()),
        final(filters)@ == (if removed {
            old(filters)@.remove(index as int)
        } else {
            old(filters)@
        }),
{
    if index < filters.len() {
        filters.remove(index);
        true
    } else {
        false
    }
}

/// Reports the removal of a filter. The dialogue has ended before.
pub fn filter_removed(removed: bool) -> (r: Outcome)
    ensures
        r.write is Keep,
        says(
            r,
            if removed {
                FILTER_REMOVED@
            } else {
                NO_SUCH_FILTER@
            },
        ),
{
    say(Write::Keep, if removed { FILTER_REMOVED } else { NO_SUCH_FILTER })
}

/// Says that the input names no filter. The dialogue has ended before.
pub fn invalid_input() -> (r: Outcome)
    ensures
        r.write is Keep,
        says(r, INVALID_INPUT@),
{
    say(Write::Keep, INVALID_INPUT)
}

/// The filters one after the other, each under its number.
pub open spec fn filter_list(filters: Seq<Seq<ConditionView>>) -> Seq<char>
    decreases filters.len(),
{
    if filters.len() == 0 {
        Seq::empty()
    } else {
        filter_list(filters.drop_last()) + "Filter "@ + decimal(filters.len()) + ":\n"@
            + filter_text(filters.last()) + "\n"@
    }
}

/// Appends the filters, each under its number.
fn push_filters(s: &mut String, filters: &Vec<Filter>)
    ensures
        final(s)@ == old(s)@ + filter_list(filter_views(filters@)),
{
    let ghost all = filter_views(filters@);
    let ghost start = s@;
    let mut i: usize = 0;
    assert(start + filter_list(all.take(0)) =~= start);
    while i < filters.len()
        invariant
            i <= filters@.len(),
            all == filter_views(filters@),
            s@ == start + filter_list(all.take(i as int)),
        decreases filters@.len() - i,
    {
        let ghost before = s@;
        let ghost shown = all.take(i + 1);
        assert(shown.drop_last() =~= all.take(i as int));
        assert(shown.last() == filters@[i as int]@);
        s.append("Filter ");
        let n = decimal_string(i as u64 + 1);
        s.append(n.as_str());
        s.append(":\n");
        let text = filters[i].to_text();
        s.append(text.as_str());
        s.append("\n");
        proof {
            let part = "Filter "@ + decimal(shown.len()) + ":\n"@ + filter_text(shown.last())
                + "\n"@;
            assert(s@ =~= before + part);
            assert(filter_list(shown) =~= filter_list(shown.drop_last()) + part);
            assert(s@ =~= start + filter_list(shown));
        }
        i = i + 1;
    }
    assert(all.take(all.len() as int) =~= all);
}

/// Shows the filters.
pub fn list_filters(filters: &Vec<Filter>) -> (r: Outcome)
    ensures
        r.write is Keep,
        says(
            r,
            if filters@.len() == 0 {
                NO_FILTERS@
            } else {
                ACTIVE_FILTERS@ + filter_list(filter_views(filters@))
            },
        ),
{
    if filters.len() == 0 {
        return say(Write::Keep, NO_FILTERS);
    }
    let mut text = ACTIVE_FILTERS.to_owned();
    push_filters(&mut text, filters);
    say(Write::Keep, text.as_str())
}

/// A button for each filter, three in a row.
pub open spec fn filter_rows(n: nat) -> Seq<Seq<Seq<char>>>
    decreases n,
{
    if n == 0 {
        Seq::empty()
    } else {
        let name = "Filter "@ + decimal(n);
        let before = filter_rows((n - 1) as nat);
        if (n - 1) % 3 == 0 {
            before.push(seq![name])
        } else {
            before.drop_last().push(before.last().push(name))
        }
    }
}

/// The rows are filled from the first on.
proof fn lemma_filter_rows(n: nat)
    ensures
        filter_rows(n).len() == (n + 2) / 3,
        n > 0 ==> filter_rows(n).last().len() == (n - 1) % 3 + 1,
    decreases n,
{
    if n > 0 {
        lemma_filter_rows((n - 1) as nat);
    }
}

/// A button for each filter, three in a row.
fn filter_keyboard(n: usize) -> (r: Vec<Vec<String>>)
    ensures
        text_rows(r@) == filter_rows(n as nat),
{
    let mut rows: Vec<Vec<String>> = Vec::new();
    let mut i: usize = 0;
    assert(text_rows(rows@) =~= filter_rows(0));
    while i < n
        invariant
            i <= n,
            text_rows(rows@) == filter_rows(i as nat),
        decreases n - i,
    {
        let ghost before = text_rows(rows@);
        proof {
            lemma_filter_rows(i as nat);
            lemma_filter_rows((i + 1) as nat);
        }
        let mut name = "Filter ".to_owned();
        let number = decimal_string(i as u64 + 1);
        name.append(number.as_str());
        let ghost label = name@;
        if i % 3 == 0 {
            let row = vec![name];
            assert(row@.map_values(|s: String| s@) =~= seq![label]);
            rows.push(row);
            assert(text_rows(rows@) =~= before.push(seq![label]));
        } else {
            match rows.pop() {
                Some(mut row) => {
                    let ghost texts = row@.map_values(|s: String| s@);
                    assert(before.last() == texts);
                    row.push(name);
                    assert(row@.map_values(|s: String| s@) =~= texts.push(label));
                    rows.push(row);
                    assert(text_rows(rows@) =~= before.drop_last().push(
                        before.last().push(label),
                    ));
                },
                None => {},
            }
        }
        i = i + 1;
    }
    rows
}

/// Lets the user choose a filter to be removed.
pub fn start_delete_filter(filters: &Vec<Filter>, channel: Option<ChatId>) -> (r: Outcome)
    ensures
        r.write == (if filters@.len() == 0 {
            Write::Keep
        } else {
            Write::Update(StateWithChannel { channel, state: State::DeletingFilter })
        }),
        asks(
            r,
            if filters@.len() == 0 {
                NO_FILTERS@
            } else {
                CHOOSE_FILTER@ + filter_list(filter_views(filters@))
            },
            filter_rows(filters@.len()),
            None,
            false,
        ),
        !r.reply_first,
{
    let keyboard = TextKeyboard {
        rows: filter_keyboard(filters.len()),
        placeholder: None,
        resize: false,
    };
    if filters.len() == 0 {
        return ask(Write::Keep, NO_FILTERS, keyboard, false);
    }
    let mut text = CHOOSE_FILTER.to_owned();
    push_filters(&mut text, filters);
    ask(
        Write::Update(StateWithChannel { channel, state: State::DeletingFilter }),
        text.as_str(),
        keyboard,
        false,
    )
}

/// Ends the removal of all filters.
pub fn filters_removed(removed: bool) -> (r: Outcome)
    ensures
        r.write is Keep,
        says(
            r,
            if removed {
                FILTERS_REMOVED@
            } else {
                NO_FILTERS_REMOVED@
            },
        ),
{
    say(Write::Keep, if removed { FILTERS_REMOVED } else { NO_FILTERS_REMOVED })
}

/// Lets the user choose a channel, in private chats only. The keyboard has one
/// button, which shares a channel under the given request.
pub fn manage_channel(is_private: bool, message_id: i32) -> (r: Outcome)
    ensures
        if is_private {
            &&& r.write == Write::Update(
                StateWithChannel {
                    channel: None,
                    state: State::ReceiveChannelSelection { request_id: message_id },
                },
            )
            &&& asks_for_channel(r, CHOOSE_CHANNEL@, message_id)
            &&& !r.reply_first
        } else {
            is_nothing(r)
        },
{
    if !is_private {
        return nothing();
    }
    let state = State::ReceiveChannelSelection { request_id: message_id };
    let keyboard = ChannelRequest {
        text: CHANNEL_BUTTON.to_owned(),
        request_id: message_id,
        user_rights: Rights { can_invite_users: true, can_post_messages: true },
        bot_rights: Rights { can_invite_users: false, can_post_messages: true },
    };
    Outcome {
        write: Write::Update(StateWithChannel { channel: None, state }),
        reply: Some(
            Reply {
                text: CHOOSE_CHANNEL.to_owned(),
                keyboard: Some(Keyboard::Channel(keyboard)),
            },
        ),
        reply_first: false,
    }
}

/// Takes up the choice of a channel, if it answers the request.
pub fn receive_channel_selection(request_id: i32, shared: Option<(i32, ChatId)>) -> (r: Outcome)
    ensures
        match shared {
            Some((id, chat)) if id == request_id => {
                &&& r.write == Write::Update(
                    StateWithChannel { channel: Some(chat), state: State::Start },
                )
                &&& says(r, CHANNEL_CHOSEN@)
                &&& !r.reply_first
            },
            _ => is_nothing(r),
        },
{
    match shared {
        Some((id, chat)) => {
            if id == request_id {
                let state = StateWithChannel { channel: Some(chat), state: State::Start };
                say(Write::Update(state), CHANNEL_CHOSEN)
            } else {
                nothing()
            }
        },
        None => nothing(),
    }
}

/// The user is among those listed.
pub open spec fn is_listed(users: Seq<u64>, user: ChatId) -> bool {
    exists|i: int| 0 <= i < users.len() && #[trigger] users[i] == user
}

/// Whether the user is among those listed.
pub fn find_user(users: &Vec<u64>, user: ChatId) -> (r: bool)
    ensures
        r == is_listed(users@, user),
{
    let mut i: usize = 0;
    while i < users.len()
        invariant
            i <= users@.len(),
            forall|j: int| 0 <= j < i ==> #[trigger] users@[j] != user,
        decreases users@.len() - i,
    {
        if user >= 0 && users[i] == user as u64 {
            assert(users@[i as int] == user);
            return true;
        }
        i = i + 1;
    }
    false
}

/// Which chat is configured: the user's own, or the channel if the user is
/// among those that are listed as its administrators. If not, the dialogue
/// ends.
pub fn checked_chat(user: ChatId, channel: Option<ChatId>, admins: &Vec<u64>) -> (r: Result<
    ChatId,
    Outcome,
>)
    ensures
        match channel {
            None => r == Ok::<ChatId, Outcome>(user),
            Some(c) => if is_listed(admins@, user) {
                r == Ok::<ChatId, Outcome>(c)
            } else {
                r matches Err(o) && o.write is Reset && o.reply_first && says(o, NO_ADMIN@)
            },
        },
{
    match channel {
        None => Ok(user),
        Some(c) => {
            if find_user(admins, user) {
                Ok(c)
            } else {
                let mut o = say(Write::Reset, NO_ADMIN);
                o.reply_first = true;
                Err(o)
            }
        },
    }
}

/// Reports whether an update went well.
pub fn update_report(ok: bool) -> (r: &'static str)
    ensures
        r@ == if ok {
            UPDATE_OK@
        } else {
            UPDATE_FAILED@
        },
{
    if ok {
        UPDATE_OK
    } else {
        UPDATE_FAILED
    }
}

/// The commands of the dialogue.
#[derive(Debug, PartialEq, Eq)]
pub enum Command {
    AddFilter,
    ListFilters,
    DeleteFilter,
    DeleteAllFilters,
    ManageChannel,
    Help,
    Cancel,
    Admin(String),
    ForceUpdate,
    /// Year, month and day.
    ScanDay(i32, u32, u32),
}

/// What of a message the dialogue looks at.
#[derive(Debug, PartialEq, Eq)]
pub struct Incoming {
    pub migrate_to: Option<ChatId>,
    pub command: Option<Command>,
    pub text: Option<String>,
    /// The request that a shared chat answers, and the chat.
    pub shared_chat: Option<(i32, ChatId)>,
}

/// How a message is handled.
#[derive(Debug, PartialEq, Eq)]
pub enum Handling {
    /// The chat moves with its subscription and its state.
    Migrate { to: ChatId, state: StateWithChannel },
    /// A command for the given channel.
    Command { command: Command, channel: Option<ChatId> },
    /// Add the filter to those of the chat.
    Save { filter: Filter, channel: Option<ChatId> },
    /// Once the chat is checked, write the state. Then remove the filter with
    /// the index from those of the chat, if there is one.
    Remove { index: Option<usize>, channel: Option<ChatId>, write: Write },
    Done(Outcome),
}

/// How a message is handled in a state.
pub open spec fn handled(state: StateWithChannel, message: Incoming, r: Handling) -> bool {
    match message.migrate_to {
        Some(to) => r == (Handling::Migrate { to, state }),
        None => if message.command == Some(Command::Cancel) {
            r matches Handling::Done(o) && o.write is Reset && says(
                o,
                if state.state is Start {
                    NOTHING_ACTIVE@
                } else {
                    CANCELLED@
                },
            ) && !o.reply_first
        } else {
            match state.state {
                State::Start => match message.command {
                    Some(command) => r == (Handling::Command {
                        command,
                        channel: state.channel,
                    }),
                    None => r matches Handling::Done(o) && is_nothing(o),
                },
                State::ReceivingTag { previous_conditions } => {
                    let text = crate::text::opt_string(message.text);
                    match r {
                        Handling::Save { filter, channel } => channel == state.channel
                            && tag_received(
                            TagOutcome::Save(filter),
                            previous_conditions,
                            text,
                            channel,
                        ),
                        Handling::Done(o) => tag_received(
                            TagOutcome::Done(o),
                            previous_conditions,
                            text,
                            state.channel,
                        ),
                        _ => false,
                    }
                },
                State::ReceivingNegation { previous_conditions, tag } => {
                    r matches Handling::Done(o) && o.write == Write::Update(
                        StateWithChannel {
                            channel: state.channel,
                            state: State::ReceivingPattern {
                                previous_conditions,
                                tag,
                                negation: crate::text::opt_string(message.text) == Some(
                                    UNLESS_MATCHES@,
                                ),
                            },
                        },
                    ) && says(o, ASK_PATTERN@) && !o.reply_first
                },
                State::ReceivingPattern { previous_conditions, tag, negation } => {
                    r matches Handling::Done(o) && match message.text {
                        None => is_nothing(o),
                        Some(pattern) => pattern_received(
                            o,
                            condition_views(previous_conditions@),
                            ConditionView { tag, pattern: pattern@, negate: negation },
                            is_regex(pattern@),
                            state.channel,
                        ),
                    }
                },
                State::DeletingFilter => {
                    r matches Handling::Remove { index, channel, write } && channel
                        == state.channel && write is Exit && match index {
                        Some(i) => filter_number(crate::text::opt_string(message.text)) == Some(
                            (i + 1) as nat,
                        ),
                        None => filter_number(crate::text::opt_string(message.text)) is None,
                    }
                },
                State::ReceiveChannelSelection { request_id } => {
                    r matches Handling::Done(o) && match message.shared_chat {
                        Some((id, chat)) if id == request_id => o.write == Write::Update(
                            StateWithChannel { channel: Some(chat), state: State::Start },
                        ) && says(o, CHANNEL_CHOSEN@) && !o.reply_first,
                        _ => is_nothing(o),
                    }
                },
            }
        },
    }
}

/// Decides how a message is handled. Only cancelling interrupts a dialogue.
pub fn handle_message(state: StateWithChannel, message: Incoming) -> (r: Handling)
    ensures
        handled(state, message, r),
{
    if let Some(to) = message.migrate_to {
        return Handling::Migrate { to, state };
    }
    let is_cancel = match &message.command {
        Some(Command::Cancel) => true,
        _ => false,
    };
    if is_cancel {
        return Handling::Done(cancel(&state));
    }
    let channel = state.channel;
    let text = match &message.text {
        Some(s) => Some(s.as_str()),
        None => None,
    };
    match state.state {
        State::Start => match message.command {
            Some(command) => Handling::Command { command, channel },
            None => Handling::Done(nothing()),
        },
        State::ReceivingTag { previous_conditions } => match receive_tag(
            previous_conditions,
            text,
            channel,
        ) {
            TagOutcome::Save(filter) => Handling::Save { filter, channel },
            TagOutcome::Done(o) => Handling::Done(o),
        },
        State::ReceivingNegation { previous_conditions, tag } => Handling::Done(
            receive_negation(previous_conditions, tag, text, channel),
        ),
        State::ReceivingPattern { previous_conditions, tag, negation } => Handling::Done(
            receive_pattern(previous_conditions, tag, negation, text, channel),
        ),
        State::DeletingFilter => Handling::Remove {
            index: filter_index(text),
            channel,
            write: Write::Exit,
        },
        State::ReceiveChannelSelection { request_id } => Handling::Done(
            receive_channel_selection(request_id, message.shared_chat),
        ),
    }
}

/// What is done when the handling of a message failed: the user is told, unless
/// it was a request to the bot's server that failed.
pub fn on_error(is_bot_error: bool) -> (r: Outcome)
    ensures
        if is_bot_error {
            is_nothing(r)
        } else {
            r.write is Keep && says(r, INTERNAL_ERROR@)
        },
{
    if is_bot_error {
        nothing()
    } else {
        say(Write::Keep, INTERNAL_ERROR)
    }
}

/// An answer to the removal of a filter ends the dialogue, whatever it says. The
/// message after it comes to a dialogue at its start, and is not taken as the
/// number of a filter again.
pub proof fn law_removal_ends_the_dialogue(
    state: StateWithChannel,
    message: Incoming,
    handling: Handling,
    next: Incoming,
    after: Handling,
)
    requires
        state.state is DeletingFilter,
        message.migrate_to is None,
        message.command != Some(Command::Cancel),
        handled(state, message, handling),
        handled((StateWithChannel { channel: None, state: State::Start }), next, after),
    ensures
        handling matches Handling::Remove { write, .. } && write is Exit,
        !(after is Remove),
{
}

/// The number on a button names the filter that the button stands for.
pub proof fn law_buttons_name_filters(n: nat)
    requires
        0 < n <= usize::MAX,
    ensures
        filter_number(Some("Filter "@ + decimal(n))) == Some(n),
{
    let prefix = "Filter "@;
    let text = prefix + decimal(n);
    assert(text.take(prefix.len() as int) =~= prefix);
    assert(text.skip(prefix.len() as int) =~= decimal(n));
    crate::text::law_decimal_round_trip(n, usize::MAX as nat);
}

/// The tag that a label stands for is the only one with that label.
proof fn lemma_labels_differ(a: Tag, b: Tag)
    requires
        a.spec_label() == b.spec_label(),
    ensures
        a == b,
{
    crate::bot::new_rule::law_tag_buttons_differ(
        crate::bot::new_rule::TagButton::Select(a),
        crate::bot::new_rule::TagButton::Select(b),
    );
}

/// No tag is labelled like the button to save.
proof fn lemma_save_is_no_label(tag: Tag)
    ensures
        tag.spec_label() != "Speichern"@,
{
    reveal_strlit("Speichern");
    reveal_strlit("Drucksachen-Nummer");
    reveal_strlit("Art der Vorlage");
    reveal_strlit("Gremium");
    reveal_strlit("Antrag- oder Fragesteller:in");
    reveal_strlit("Federführendes Amt");
    reveal_strlit("Beteiligtes Amt");
    assert("Speichern"@.len() == 9);
    assert("Drucksachen-Nummer"@.len() == 18);
    assert("Art der Vorlage"@.len() == 15);
    assert("Gremium"@.len() == 7);
    assert("Antrag- oder Fragesteller:in"@.len() == 28);
    assert("Federführendes Amt"@.len() == 18);
    assert("Beteiligtes Amt"@.len() == 15);
}

/// A filter is set up in three steps for each condition: the tag, whether the
/// pattern must not match, and the pattern. The conditions before stay, and so
/// does the channel. Saving then gives all conditions.
pub proof fn law_filter_is_set_up(
    state: StateWithChannel,
    previous: Vec<Condition>,
    tag: Tag,
    answers: (Incoming, Incoming, Incoming, Incoming),
    outcomes: (Outcome, Outcome, Outcome),
    next: (StateWithChannel, StateWithChannel, StateWithChannel),
    saved: Handling,
)
    requires
        state.state == (State::ReceivingTag { previous_conditions: previous }),
        answers.0.migrate_to is None && answers.1.migrate_to is None && answers.2.migrate_to is None
            && answers.3.migrate_to is None,
        answers.0.command is None && answers.1.command is None && answers.2.command is None
            && answers.3.command is None,
        answers.0.text is Some && answers.0.text->0@ == tag.spec_label(),
        answers.2.text is Some && is_regex(answers.2.text->0@),
        answers.3.text is Some && answers.3.text->0@ == "Speichern"@,
        call_ensures(handle_message, (state, answers.0), Handling::Done(outcomes.0)),
        outcomes.0.write == Write::Update(next.0),
        call_ensures(handle_message, (next.0, answers.1), Handling::Done(outcomes.1)),
        outcomes.1.write == Write::Update(next.1),
        call_ensures(handle_message, (next.1, answers.2), Handling::Done(outcomes.2)),
        outcomes.2.write == Write::Update(next.2),
        call_ensures(handle_message, (next.2, answers.3), saved),
    ensures
        next.0.state == (State::ReceivingNegation { previous_conditions: previous, tag }),
        next.1.state is ReceivingPattern,
        next.2.state is ReceivingTag,
        saved matches Handling::Save { filter, channel } && {
            let n = previous@.len() as int;
            let last = filter.conditions@[n];
            &&& channel == state.channel
            &&& filter.conditions@.len() == n + 1
            &&& forall|i: int|
                0 <= i < n ==> (#[trigger] filter.conditions@[i])@ == previous@[i]@
            &&& last.tag == tag
            &&& last.pattern@ == answers.2.text->0@
            &&& last.negate <==> answers.1.text is Some && answers.1.text->0@
                == "Wenn das Pattern nicht zutrifft"@
        },
{
    lemma_save_is_no_label(tag);
    assert(labelled(tag, answers.0.text->0@));
    if let State::ReceivingNegation { previous_conditions, tag: chosen } = next.0.state {
        lemma_labels_differ(chosen, tag);
    }
    if let State::ReceivingTag { previous_conditions } = next.2.state {
        let views = condition_views(previous_conditions@);
        let n = previous@.len() as int;
        assert(views.len() == previous_conditions@.len());
        assert(condition_views(previous@).len() == n);
        assert(views[n] == previous_conditions@[n]@);
        assert forall|i: int| 0 <= i < n implies (#[trigger] previous_conditions@[i])@
            == previous@[i]@ by {
            assert(views[i] == previous_conditions@[i]@);
            assert(condition_views(previous@)[i] == previous@[i]@);
        }
    }
}

/// A chat that has moved is moved with its state, whatever else the message
/// says. Cancelling ends any dialogue. No other command interrupts one.
pub proof fn law_only_cancelling_interrupts(
    state: StateWithChannel,
    message: Incoming,
    r: Handling,
)
    requires
        call_ensures(handle_message, (state, message), r),
    ensures
        message.migrate_to matches Some(to) ==> r == (Handling::Migrate { to, state }),
        message.migrate_to is None && message.command == Some(Command::Cancel) ==> (
        r matches Handling::Done(o) && o.write is Reset && o.reply is Some),
        message.migrate_to is None ==> !(r is Migrate),
        r is Command <==> message.migrate_to is None && state.state is Start
            && message.command is Some && message.command != Some(Command::Cancel),
        r matches Handling::Command { command, channel } ==> Some(command) == message.command
            && channel == state.channel,
        state.state is Start && message.migrate_to is None && message.command is None ==> (
        r matches Handling::Done(o) && o.write is Keep && o.reply is None),
{
}

/// What is neither a tag nor to be saved changes nothing, and tags are offered
/// again. What is no pattern changes nothing either.
pub proof fn law_wrong_answers_change_nothing(
    channel: Option<ChatId>,
    previous: Vec<Condition>,
    tag: Tag,
    negate: bool,
    text: &str,
    r: TagOutcome,
    o: Outcome,
)
    requires
        call_ensures(receive_tag, (previous, Some(text), channel), r),
        call_ensures(receive_pattern, (previous, tag, negate, Some(text), channel), o),
    ensures
        r is Save <==> text@ == "Speichern"@,
        text@ != "Speichern"@ && (forall|t: Tag| #[trigger] t.spec_label() != text@) ==> (
        r matches TagOutcome::Done(d) && d.write is Keep && d.reply is Some
            && d.reply->0.keyboard is Some),
        o.write is Keep <==> !is_regex(text@),
        o.write is Update <==> is_regex(text@),
        o.reply is Some,
{
    if exists|t: Tag| labelled(t, text@) {
        let t = choose|t: Tag| labelled(t, text@);
        assert(t.spec_label() == text@);
    }
}

/// Messages without a text are passed over while a text is awaited, except that
/// a condition is not negated then.
pub proof fn law_missing_texts_are_passed_over(
    channel: Option<ChatId>,
    previous: Vec<Condition>,
    tag: Tag,
    negate: bool,
    r: TagOutcome,
    asked: Outcome,
    o: Outcome,
)
    requires
        call_ensures(receive_tag, (previous, None, channel), r),
        call_ensures(receive_negation, (previous, tag, None, channel), asked),
        call_ensures(receive_pattern, (previous, tag, negate, None, channel), o),
    ensures
        r matches TagOutcome::Done(d) && d.write is Keep && d.reply is None,
        asked.write == Write::Update(
            StateWithChannel {
                channel,
                state: State::ReceivingPattern { previous_conditions: previous, tag, negation: false },
            },
        ),
        o.write is Keep && o.reply is None,
{
}

/// When a condition was added, all conditions of the filter are shown.
pub proof fn law_added_conditions_are_shown(
    previous: Vec<Condition>,
    condition: Condition,
    all: Filter,
    accepted: bool,
    channel: Option<ChatId>,
    r: Outcome,
    shown: String,
)
    requires
        call_ensures(on_pattern, (previous, condition, accepted, channel), r),
        all.conditions@ == previous@.push(condition),
        call_ensures(Filter::to_text, (&all,), shown),
    ensures
        r.reply is Some,
        accepted ==> r.reply->0.text@ == "Bedingung hinzugefügt! Bisherige Bedingungen:\n"@ + shown@
            + "\nGib einen weiteren Tag ein oder speichere den Filter."@,
        accepted ==> (r.write matches Write::Update(s) && s.channel == channel
            && (s.state matches State::ReceivingTag { previous_conditions } && condition_views(
            previous_conditions@,
        ) == all@)),
        !accepted ==> r.write is Keep,
{
    assert(all@ =~= condition_views(previous@).push(condition@));
}

/// A new filter starts without conditions, for the channel that is selected.
pub proof fn law_new_filter_is_empty(
    channel: Option<ChatId>,
    r: Outcome,
    state: StateWithChannel,
    cancelled: Outcome,
    saved: Outcome,
)
    requires
        call_ensures(add_filter, (channel,), r),
        call_ensures(cancel, (&state,), cancelled),
        call_ensures(filter_saved, (), saved),
    ensures
        r.write matches Write::Update(s) && s.channel == channel && (s.state matches State::ReceivingTag {
            previous_conditions,
        } && previous_conditions@.len() == 0),
        r.reply is Some && r.reply->0.keyboard is Some,
        cancelled.write is Reset,
        cancelled.reply is Some,
        cancelled.reply->0.text@ == (if state.state is Start {
            "Kein Befehl aktiv ..."@
        } else {
            "Befehl wurde abgebrochen!"@
        }),
        saved.write is Exit,
{
}

/// A tag is found by its label, and only by it.
pub proof fn law_tags_are_found_by_label(label: &str, r: Option<Tag>, tag: Tag)
    requires
        call_ensures(tag_labelled, (label,), r),
    ensures
        r == Some(tag) <==> tag.spec_label() == label@,
{
    match r {
        Some(found) => {
            assert(labelled(found, label@));
            if tag.spec_label() == label@ {
                lemma_labels_differ(found, tag);
                assert(found == tag);
            }
        },
        None => {},
    }
}

/// Every tag has a button, and so has saving.
pub proof fn law_tags_have_buttons(r: TextKeyboard, tag: Tag)
    requires
        call_ensures(tag_keyboard, (), r),
    ensures
        exists|i: int, j: int|
            0 <= i < r.rows@.len() && 0 <= j < r.rows@[i]@.len() && (
            #[trigger] r.rows@[i]@[j])@ == tag.spec_label(),
        r.rows@.len() == 4 && r.rows@[0]@.len() == 1 && r.rows@[0]@[0]@ == "Speichern"@,
{
    let rows = text_rows(r.rows@);
    assert(rows.len() == r.rows@.len());
    let (i, j): (int, int) = match tag {
        Tag::Dsnr => (1, 0),
        Tag::Art => (1, 1),
        Tag::Beteiligt => (2, 0),
        Tag::Federfuehrend => (2, 1),
        Tag::Gremium => (3, 0),
        Tag::Verfasser => (3, 1),
    };
    assert(rows[i] == r.rows@[i]@.map_values(|s: String| s@));
    assert(rows[i].len() == r.rows@[i]@.len());
    assert(rows[i][j] == r.rows@[i]@[j]@);
    assert(rows[0] == r.rows@[0]@.map_values(|s: String| s@));
    assert(rows[0].len() == r.rows@[0]@.len());
    assert(rows[0][0] == r.rows@[0]@[0]@);
}

/// A filter is named by its number, counted from one on.
pub proof fn law_filters_are_named_by_number(
    n: u64,
    number: String,
    text: &str,
    r: Option<usize>,
    other: &str,
    none: Option<usize>,
)
    requires
        0 < n <= usize::MAX,
        call_ensures(decimal_string, (n,), number),
        text@ == "Filter "@ + number@,
        call_ensures(filter_index, (Some(text),), r),
        call_ensures(filter_index, (Some(other),), none),
        forall|rest: Seq<char>| other@ != #[trigger] ("Filter "@ + rest),
    ensures
        r == Some((n - 1) as usize),
        none is None,
{
    law_buttons_name_filters(n as nat);
    let prefix = "Filter "@;
    if let Some(rest) = stripped(other@, prefix) {
        assert(other@ =~= prefix + rest);
    }
}

/// Removing a filter removes the one with the index, and no other.
pub proof fn law_one_filter_is_removed(filters: &mut Vec<Filter>, index: usize, removed: bool)
    requires
        call_ensures(remove_at, (filters, index), removed),
    ensures
        removed <==> index < old(filters)@.len(),
        removed ==> final(filters)@ == old(filters)@.take(index as int) + old(filters)@.skip(
            index + 1,
        ),
        !removed ==> final(filters)@ == old(filters)@,
{
    if removed {
        assert(old(filters)@.remove(index as int) =~= old(filters)@.take(index as int) + old(
            filters,
        )@.skip(index + 1));
    }
}

/// Filters are listed all, each under its number: one more filter adds its
/// number and its conditions to the list.
pub proof fn law_filters_are_listed(
    less: Vec<Filter>,
    last: Filter,
    more: Vec<Filter>,
    r: Outcome,
    longer: Outcome,
    number: String,
    shown: String,
)
    requires
        more@ == less@.push(last),
        more@.len() <= u64::MAX,
        call_ensures(list_filters, (&less,), r),
        call_ensures(list_filters, (&more,), longer),
        call_ensures(decimal_string, (more@.len() as u64,), number),
        call_ensures(Filter::to_text, (&last,), shown),
    ensures
        r.write is Keep && longer.write is Keep,
        r.reply is Some && longer.reply is Some,
        less@.len() == 0 ==> r.reply->0.text@ == "Zur Zeit sind keine Filter aktiv."@,
        longer.reply->0.text@ == (if less@.len() == 0 {
            "Zur Zeit sind folgende Filter aktiv:\n\n"@
        } else {
            r.reply->0.text@
        }) + "Filter "@ + number@ + ":\n"@ + shown@ + "\n"@,
{
    let all = filter_views(more@);
    assert(all.drop_last() =~= filter_views(less@));
    assert(all.last() == last@);
    assert(all.len() == more@.len());
    let part = "Filter "@ + number@ + ":\n"@ + shown@ + "\n"@;
    assert(filter_list(all) =~= filter_list(filter_views(less@)) + part);
    if less@.len() == 0 {
        assert(filter_list(filter_views(less@)) =~= Seq::<char>::empty());
    }
}

/// A filter can be chosen for removal exactly if there is one, and the dialogue
/// then waits for it. Each filter has a button.
pub proof fn law_filters_can_be_chosen(filters: Vec<Filter>, channel: Option<ChatId>, r: Outcome)
    requires
        call_ensures(start_delete_filter, (&filters, channel), r),
    ensures
        filters@.len() == 0 ==> r.write is Keep,
        filters@.len() > 0 ==> r.write == Write::Update(
            StateWithChannel { channel, state: State::DeletingFilter },
        ),
        r.reply is Some && (r.reply->0.keyboard matches Some(Keyboard::Texts(k)) && k.rows@.len()
            == (filters@.len() + 2) / 3),
{
    lemma_filter_rows(filters@.len());
    if let Some(Keyboard::Texts(k)) = r.reply->0.keyboard {
        assert(text_rows(k.rows@).len() == k.rows@.len());
    }
}

/// An answer while a filter is removed names the filter, for the channel that is
/// selected, and ends the dialogue.
pub proof fn law_removal_takes_the_named_filter(
    state: StateWithChannel,
    message: Incoming,
    r: Handling,
    text: Option<&str>,
    index: Option<usize>,
)
    requires
        state.state is DeletingFilter,
        message.migrate_to is None,
        message.command is None,
        call_ensures(handle_message, (state, message), r),
        opt_text(text) == crate::text::opt_string(message.text),
        call_ensures(filter_index, (text,), index),
    ensures
        r == (Handling::Remove { index, channel: state.channel, write: Write::Exit }),
{
}

/// A channel can be chosen in a private chat. The one that was shared for the
/// request is configured from then on, and no other.
pub proof fn law_channel_is_chosen(
    message_id: i32,
    private: Outcome,
    group: Outcome,
    waiting: StateWithChannel,
    message: Incoming,
    r: Handling,
)
    requires
        call_ensures(manage_channel, (true, message_id), private),
        call_ensures(manage_channel, (false, message_id), group),
        private.write == Write::Update(waiting),
        message.migrate_to is None,
        message.command is None,
        call_ensures(handle_message, (waiting, message), r),
    ensures
        group.write is Keep && group.reply is None,
        private.reply is Some && (private.reply->0.keyboard matches Some(Keyboard::Channel(k))
            && k.request_id == message_id && k.user_rights.can_post_messages
            && k.user_rights.can_invite_users && k.bot_rights.can_post_messages),
        r matches Handling::Done(o) && match message.shared_chat {
            Some((id, chat)) => if id == message_id {
                o.write == Write::Update(
                    StateWithChannel { channel: Some(chat), state: State::Start },
                )
            } else {
                o.write is Keep && o.reply is None
            },
            None => o.write is Keep && o.reply is None,
        },
{
}

/// A user configures their own chat, or a channel that they administer. Anyone
/// else is turned away, and the dialogue ends.
pub proof fn law_admins_are_checked(
    user: ChatId,
    channel: Option<ChatId>,
    admins: Vec<u64>,
    r: Result<ChatId, Outcome>,
    found: bool,
)
    requires
        call_ensures(checked_chat, (user, channel, &admins), r),
        call_ensures(find_user, (&admins, user), found),
    ensures
        found <==> exists|i: int| 0 <= i < admins@.len() && #[trigger] admins@[i] == user,
        channel is None ==> r is Ok && r->Ok_0 == user,
        channel is Some && found ==> r is Ok && r->Ok_0 == channel->0,
        channel is Some && !found ==> (r matches Err(o) && o.write is Reset && o.reply is Some),
{
}

/// What went wrong and what went well is told apart.
pub proof fn law_reports_differ(
    removed: (Outcome, Outcome),
    all_removed: (Outcome, Outcome),
    updated: (&'static str, &'static str),
    failed: (Outcome, Outcome),
)
    requires
        call_ensures(filter_removed, (true,), removed.0),
        call_ensures(filter_removed, (false,), removed.1),
        call_ensures(filters_removed, (true,), all_removed.0),
        call_ensures(filters_removed, (false,), all_removed.1),
        call_ensures(update_report, (true,), updated.0),
        call_ensures(update_report, (false,), updated.1),
        call_ensures(on_error, (true,), failed.0),
        call_ensures(on_error, (false,), failed.1),
    ensures
        removed.0.reply->0.text@ == "Alles klar, Filter wurde entfernt!"@,
        removed.1.reply->0.text@ == "Diesen Filter scheint es nicht zu geben :/"@,
        all_removed.0.reply->0.text@ == "Deine Filter wurden entfernt."@,
        all_removed.1.reply->0.text@ == "Es waren keine Filter aktiv."@,
        updated.0@ == "OK!"@,
        updated.1@ == "Ein Fehler ist aufgetreten. Schau im Log nach!"@,
        failed.0.reply is None,
        failed.1.reply is Some && failed.1.reply->0.text@ == "Interner Fehler :(("@,
{
}

/// The reply goes out before the state is written where a tag was chosen, a
/// filter was saved, or a user is turned away, and after it otherwise.
pub proof fn law_replies_that_go_out_first(
    previous: Vec<Condition>,
    tag: Tag,
    text: &str,
    channel: Option<ChatId>,
    chosen: TagOutcome,
    asked: Outcome,
    saved: Outcome,
    user: ChatId,
    admins: Vec<u64>,
    checked: Result<ChatId, Outcome>,
    state: StateWithChannel,
    cancelled: Outcome,
    started: Outcome,
)
    requires
        text@ == tag.spec_label(),
        call_ensures(receive_tag, (previous, Some(text), channel), chosen),
        call_ensures(receive_negation, (previous, tag, Some(text), channel), asked),
        call_ensures(filter_saved, (), saved),
        call_ensures(checked_chat, (user, channel, &admins), checked),
        call_ensures(cancel, (&state,), cancelled),
        call_ensures(add_filter, (channel,), started),
    ensures
        chosen matches TagOutcome::Done(o) && o.reply_first,
        !asked.reply_first,
        saved.reply_first,
        checked matches Err(o) ==> o.reply_first,
        !cancelled.reply_first,
        !started.reply_first,
{
    lemma_save_is_no_label(tag);
    assert(labelled(tag, text@));
}

/// The button for a filter says its number, counted from one on, and stands at
/// its place, three in a row. The filters are shown as in the list of all.
pub proof fn law_filters_have_buttons(
    filters: Vec<Filter>,
    channel: Option<ChatId>,
    r: Outcome,
    i: int,
    n: u64,
    number: String,
    listed: Outcome,
)
    requires
        filters@.len() > 0,
        call_ensures(start_delete_filter, (&filters, channel), r),
        call_ensures(list_filters, (&filters,), listed),
        0 <= i < filters@.len() <= u64::MAX,
        n == i + 1,
        call_ensures(decimal_string, (n,), number),
    ensures
        r.reply is Some && (r.reply->0.keyboard matches Some(Keyboard::Texts(k)) && {
            &&& i / 3 < k.rows@.len()
            &&& k.rows@[i / 3]@.len() == (if filters@.len() - 3 * (i / 3) < 3 {
                filters@.len() - 3 * (i / 3)
            } else {
                3
            })
            &&& k.rows@[i / 3]@[i % 3]@ == "Filter "@ + number@
        }),
        exists|all: Seq<char>|
            listed.reply->0.text@ == #[trigger] ("Zur Zeit sind folgende Filter aktiv:\n\n"@ + all)
                && r.reply->0.text@ == "Wähle einen der folgenden Filter zum Löschen:\n\n"@ + all,
{
    lemma_filter_row(filters@.len(), i);
    if let Some(Keyboard::Texts(k)) = r.reply->0.keyboard {
        let rows = text_rows(k.rows@);
        assert(rows == filter_rows(filters@.len()));
        assert(rows.len() == k.rows@.len());
        assert(rows[i / 3] == k.rows@[i / 3]@.map_values(|s: String| s@));
        assert(rows[i / 3][i % 3] == k.rows@[i / 3]@[i % 3]@);
    }
    let all = filter_list(filter_views(filters@));
    assert(listed.reply->0.text@ == "Zur Zeit sind folgende Filter aktiv:\n\n"@ + all);
}

/// Where the button for a filter stands.
proof fn lemma_filter_row(n: nat, i: int)
    requires
        0 <= i < n,
    ensures
        i / 3 < filter_rows(n).len(),
        filter_rows(n)[i / 3].len() == (if n - 3 * (i / 3) < 3 {
            n - 3 * (i / 3)
        } else {
            3
        }),
        filter_rows(n)[i / 3][i % 3] == "Filter "@ + decimal((i + 1) as nat),
    decreases n,
{
    lemma_filter_rows(n);
    lemma_filter_rows((n - 1) as nat);
    let before = filter_rows((n - 1) as nat);
    if i < n - 1 {
        lemma_filter_row((n - 1) as nat, i);
        if (n - 1) % 3 != 0 && i / 3 == before.len() - 1 {
            assert(filter_rows(n)[i / 3] == before.last().push("Filter "@ + decimal(n)));
        } else {
            assert(filter_rows(n)[i / 3] == before[i / 3]);
        }
    } else if (n - 1) % 3 == 0 {
        assert(filter_rows(n)[i / 3] == seq!["Filter "@ + decimal(n)]);
    } else {
        assert(filter_rows(n)[i / 3] == before.last().push("Filter "@ + decimal(n)));
    }
}

/// Whether a condition is negated is asked with the two answers that there are.
pub proof fn law_negation_has_two_answers(r: TextKeyboard)
    requires
        call_ensures(negation_keyboard, (), r),
    ensures
        r.rows@.len() == 2,
        r.rows@[0]@.len() == 1 && r.rows@[0]@[0]@ == "Wenn das Pattern zutrifft"@,
        r.rows@[1]@.len() == 1 && r.rows@[1]@[0]@ == "Wenn das Pattern nicht zutrifft"@,
{
    let rows = text_rows(r.rows@);
    assert(rows.len() == r.rows@.len());
    assert(rows[0] == r.rows@[0]@.map_values(|s: String| s@));
    assert(rows[0].len() == r.rows@[0]@.len());
    assert(rows[0][0] == r.rows@[0]@[0]@);
    assert(rows[1] == r.rows@[1]@.map_values(|s: String| s@));
    assert(rows[1].len() == r.rows@[1]@.len());
    assert(rows[1][0] == r.rows@[1]@[0]@);
}

/// A channel that was shared answers the request with the same number only.
pub proof fn law_shared_channel_answers_its_request(
    request_id: i32,
    id: i32,
    chat: ChatId,
    r: Outcome,
    none: Outcome,
)
    requires
        call_ensures(receive_channel_selection, (request_id, Some((id, chat))), r),
        call_ensures(receive_channel_selection, (request_id, None), none),
    ensures
        id == request_id ==> r.write == Write::Update(
            StateWithChannel { channel: Some(chat), state: State::Start },
        ) && r.reply is Some && r.reply->0.text@ == "Channel wurde ausgewählt!"@,
        id != request_id ==> r.write is Keep && r.reply is None,
        none.write is Keep && none.reply is None,
{
}

/// Tags are offered wherever a tag is awaited, and the two answers where it is
/// asked whether a condition is negated.
pub proof fn law_answers_are_offered(
    channel: Option<ChatId>,
    tags: TextKeyboard,
    two: TextKeyboard,
    started: Outcome,
    previous: Vec<Condition>,
    condition: Condition,
    added: Outcome,
    tag: Tag,
    text: &str,
    chosen: Outcome,
    wrong: &str,
    again: Outcome,
)
    requires
        call_ensures(tag_keyboard, (), tags),
        call_ensures(negation_keyboard, (), two),
        call_ensures(add_filter, (channel,), started),
        call_ensures(on_pattern, (previous, condition, true, channel), added),
        text@ == tag.spec_label(),
        call_ensures(receive_tag, (previous, Some(text), channel), TagOutcome::Done(chosen)),
        wrong@ != "Speichern"@,
        forall|t: Tag| #[trigger] t.spec_label() != wrong@,
        call_ensures(receive_tag, (previous, Some(wrong), channel), TagOutcome::Done(again)),
    ensures
        started.reply is Some && (started.reply->0.keyboard matches Some(Keyboard::Texts(k))
            && text_rows(k.rows@) == text_rows(tags.rows@)),
        added.reply is Some && (added.reply->0.keyboard matches Some(Keyboard::Texts(k))
            && text_rows(k.rows@) == text_rows(tags.rows@)),
        again.reply is Some && (again.reply->0.keyboard matches Some(Keyboard::Texts(k))
            && text_rows(k.rows@) == text_rows(tags.rows@)),
        chosen.reply is Some && (chosen.reply->0.keyboard matches Some(Keyboard::Texts(k))
            && text_rows(k.rows@) == text_rows(two.rows@)),
        started.reply->0.text@
            == "Lass uns einen Filter einrichten! Du kannst den Filter auch sofort speichern, um alle Vorlagen einzuschließen.\n\nBitte gib den ersten Tag ein:"@,
        again.reply->0.text@ == "Ungültiger Tag! Versuche es noch mal"@,
        chosen.reply->0.text@ == "Wann soll die Bedingung erfüllt sein?"@,
{
    lemma_save_is_no_label(tag);
    assert(labelled(tag, text@));
    if exists|t: Tag| labelled(t, wrong@) {
        let t = choose|t: Tag| labelled(t, wrong@);
        assert(t.spec_label() == wrong@);
    }
}

} // verus!
