//! Creates a rule: the user picks tags and enters patterns for them, until the
//! rule is saved.

use regex::RegexBuilder;
use vstd::prelude::*;
use vstd::string::*;

use super::{plan, reset, CommandKind, Dialogue, DialogueState, DialogueWrite, HandlerError, Plan, Reply};
use crate::channel::SelectedChannel;
use crate::keyboard::{
    force_reply, keyboard_markup, match_action, Answer, Button, Choice, ReplyMarkup,
};
use crate::message_builder::Error as MessageError;
use crate::rich_text::Piece;
use crate::text::{find, strip_prefix};
use crate::types::{Condition, Filter, Tag};

verus! {

use super::{
    planned, reset_view, text_reply, DialogueView, PlanView, StateView, WriteView,
};
use crate::channel::{opt_channel, selection, selection_accusative, showable, ChannelView};
use crate::keyboard::{
    choice_buttons, first_answered, lemma_first_answered, rows_of, ButtonView, MarkupView,
};
use crate::rich_text::{fits, piece_views, PieceView};
use crate::text::{has_prefix, opt_string, opt_text, stripped};
use crate::types::{all_tags, condition_views, filter_text, filter_views, texts, ConditionView};

pub const TITLE: &'static str = "Regel erstellen";

pub const INTRODUCTION: &'static str =
    "\n\nWähle ein Merkmal für die erste Bedingung oder tippe auf „Speichern“, um die Regel sofort ohne Bedingungen (alle Vorlagen werden erfasst) anzulegen.\n\nAusgewählter Chat: ";

pub const SAVE: &'static str = "✅ Speichern";

pub const SAVED: &'static str = "✅ Die Regel für ";

pub const SAVED_END: &'static str = " wurde gespeichert und ist nun aktiv!";

pub const INVALID_TAG: &'static str =
    "\u{fe0f}Bitte wähle ein gültiges Merkmal aus, oder sende /";

pub const INVALID_TAG_END: &'static str = " zum Abbrechen";

pub const PATTERN_HINT: &'static str = "Regex-Pattern";

pub const EXAMPLES: &'static str = "\n\nMögliche Werte sind beispielsweise: ";

pub const ASK_PATTERN: &'static str =
    "\n\nGib nun ein Regex-Pattern ein, wie z.\u{202f}B. ";

pub const NEGATION: &'static str =
    ". Um die Bedingung umzudrehen, beginne mit einem Ausrufezeichen – dann werden alle Vorlagen, auf die das Pattern zutrifft, ausgeschlossen.";

pub const NEWLINE_REFUSED: &'static str =
    "❌ Ungültiges Regex-Pattern: Zeilenumbrüche sind nicht erlaubt. Bitte versuche es erneut.";

pub const PATTERN_TOO_BIG: &'static str =
    "❌ Ungültiges Regex-Pattern: Das Pattern ist zu groß. Bitte versuche es erneut.";

pub const PATTERN_INVALID: &'static str =
    "❌ Ungültiges Regex-Pattern. Bitte versuche es erneut. Tipp: Frage ChatGPT um Hilfe.\n\n";

pub const CONDITION_ADDED: &'static str = "Bedingung hinzugefügt – aktuelle Regel:\n\n";

pub const CONDITION_ADDED_END: &'static str =
    "\nWähle ein weiteres Merkmal oder tippe auf „Speichern“.";

/// What can be chosen while a rule is created.
#[derive(Debug, Clone, Copy, PartialEq, Eq, Structural)]
pub enum TagButton {
    Save,
    Select(Tag),
}

impl TagButton {
    /// What the button says.
    pub open spec fn spec_text(self) -> Seq<char> {
        match self {
            TagButton::Save => SAVE@,
            TagButton::Select(tag) => tag.spec_label(),
        }
    }
}

impl Choice for TagButton {
    open spec fn spec_button(&self) -> ButtonView {
        ButtonView::Text { text: self.spec_text() }
    }

    fn button(&self) -> Button {
        let text = match self {
            TagButton::Save => SAVE.to_owned(),
            TagButton::Select(tag) => tag.label().to_owned(),
        };
        Button::Text { text }
    }
}

/// All that can be chosen: a tag, or to save the rule.
pub open spec fn tag_buttons() -> Seq<TagButton> {
    all_tags().map_values(|t: Tag| TagButton::Select(t)).push(TagButton::Save)
}

/// All that can be chosen: a tag, or to save the rule.
pub fn buttons() -> (r: Vec<TagButton>)
    ensures
        r@ == tag_buttons(),
{
    let tags = Tag::tags();
    let mut r: Vec<TagButton> = Vec::new();
    let mut i: usize = 0;
    while i < tags.len()
        invariant
            i <= tags@.len(),
            tags@ == all_tags(),
            r@ == all_tags().take(i as int).map_values(|t: Tag| TagButton::Select(t)),
        decreases tags@.len() - i,
    {
        r.push(TagButton::Select(tags[i]));
        i = i + 1;
        assert(r@ =~= all_tags().take(i as int).map_values(|t: Tag| TagButton::Select(t)));
    }
    assert(all_tags().take(all_tags().len() as int) =~= all_tags());
    r.push(TagButton::Save);
    r
}

/// The keyboard with all that can be chosen.
pub open spec fn tag_keyboard() -> MarkupView {
    MarkupView::keyboard(rows_of(choice_buttons(tag_buttons())))
}

fn keyboard() -> (r: ReplyMarkup)
    ensures
        r@ == tag_keyboard(),
{
    let choices = buttons();
    keyboard_markup(&choices)
}

/// The first message of a new rule.
pub open spec fn introduction(channel: Option<ChannelView>) -> Seq<PieceView> {
    seq![
        PieceView::plain("🎛\u{fe0f} "@),
        PieceView::bold(TITLE@),
        PieceView::plain(INTRODUCTION@),
    ] + selection(channel)
}

/// Starts a new rule for the selected chat.
pub fn handle_command(dialogue: Dialogue) -> (r: Result<Plan, MessageError>)
    requires
        showable(dialogue@.channel),
    ensures
        planned(
            r,
            WriteView::Store(
                DialogueView {
                    channel: dialogue@.channel,
                    state: StateView::TagSelection { conditions: Seq::empty() },
                },
            ),
            introduction(dialogue@.channel),
            Some(tag_keyboard()),
        ),
{
    let mut target = SelectedChannel::chat_selection(&dialogue.channel);
    let ghost target_views = piece_views(target@);
    let mut pieces = vec![
        Piece::plain("🎛\u{fe0f} "),
        Piece::bold(TITLE),
        Piece::plain(INTRODUCTION),
    ];
    pieces.append(&mut target);
    assert(piece_views(pieces@) =~= introduction(dialogue@.channel));
    let state = TagSelection { previous_conditions: Vec::new() };
    assert(condition_views(state.previous_conditions@) =~= Seq::<ConditionView>::empty());
    plan(
        DialogueWrite::Store(
            Dialogue { channel: dialogue.channel, state: DialogueState::TagSelection(state) },
        ),
        pieces,
        Some(keyboard()),
    )
}

/// The bot waits for a tag, or for the rule to be saved.
#[derive(Debug, PartialEq, Eq)]
pub struct TagSelection {
    pub previous_conditions: Vec<Condition>,
}

/// What is done about the choice of a tag.
#[derive(Debug, PartialEq, Eq)]
pub enum TagStep {
    /// Add the rule to those of the selected chat, and go on with
    /// [`rule_saved`].
    Save(Filter),
    Reply(Plan),
}

/// What is offered as examples of a tag's values.
pub open spec fn example_pieces(examples: Seq<Seq<char>>) -> Seq<PieceView>
    decreases examples.len(),
{
    if examples.len() == 0 {
        Seq::empty()
    } else if examples.len() == 1 {
        seq![PieceView::code(examples[0])]
    } else {
        example_pieces(examples.drop_last()).push(PieceView::plain(", "@)).push(
            PieceView::code(examples.last()),
        )
    }
}

/// What is shown when a tag was chosen.
pub open spec fn tag_chosen(tag: Tag) -> Seq<PieceView> {
    let description = match tag.spec_description() {
        Some(d) => seq![PieceView::plain(" ("@ + d + ")"@)],
        None => Seq::empty(),
    };
    let examples = if tag.spec_examples().len() == 0 {
        Seq::empty()
    } else {
        seq![PieceView::plain(EXAMPLES@)] + example_pieces(tag.spec_examples())
    };
    seq![PieceView::plain("Du hast das Merkmal "@), PieceView::bold(tag.spec_label())]
        + description + seq![PieceView::plain(" gewählt."@)] + examples + seq![
        PieceView::plain(ASK_PATTERN@),
        PieceView::code("Wert"@),
        PieceView::plain(" oder "@),
        PieceView::code("Option 1|Option 2"@),
        PieceView::plain(NEGATION@),
    ]
}

/// Appends the examples of a tag's values.
fn push_examples(pieces: &mut Vec<Piece>, examples: &Vec<&'static str>)
    ensures
        piece_views(final(pieces)@) == piece_views(old(pieces)@) + example_pieces(texts(examples@)),
{
    let ghost all = texts(examples@);
    let ghost start = piece_views(pieces@);
    let mut i: usize = 0;
    assert(start + example_pieces(all.take(0)) =~= start);
    while i < examples.len()
        invariant
            i <= examples@.len(),
            all == texts(examples@),
            piece_views(pieces@) == start + example_pieces(all.take(i as int)),
        decreases examples@.len() - i,
    {
        let ghost shown = all.take(i + 1);
        assert(shown.drop_last() =~= all.take(i as int));
        let ghost before = pieces@;
        if i != 0 {
            pieces.push(Piece::plain(", "));
        }
        pieces.push(Piece::code(examples[i]));
        proof {
            let code = PieceView::code(shown.last());
            if i == 0 {
                assert(example_pieces(shown.drop_last()) =~= Seq::empty());
                assert(piece_views(pieces@) =~= piece_views(before).push(code));
                assert(example_pieces(shown) =~= seq![code]);
            } else {
                let comma = PieceView::plain(", "@);
                assert(piece_views(pieces@) =~= piece_views(before).push(comma).push(code));
                assert(example_pieces(shown) == example_pieces(shown.drop_last()).push(comma).push(
                    code,
                ));
            }
            assert(piece_views(pieces@) =~= start + example_pieces(shown));
        }
        i = i + 1;
    }
    assert(all.take(all.len() as int) =~= all);
}

/// Shows what is known of a tag and asks for a pattern.
fn describe_tag(tag: Tag) -> (r: Vec<Piece>)
    ensures
        piece_views(r@) == tag_chosen(tag),
{
    let mut pieces = vec![Piece::plain("Du hast das Merkmal "), Piece::bold(tag.label())];
    let ghost head = seq![PieceView::plain("Du hast das Merkmal "@), PieceView::bold(tag.spec_label())];
    assert(piece_views(pieces@) =~= head);
    let ghost description = match tag.spec_description() {
        Some(d) => seq![PieceView::plain(" ("@ + d + ")"@)],
        None => Seq::empty(),
    };
    if let Some(description) = tag.description() {
        let mut s = " (".to_owned();
        s.append(description);
        s.append(")");
        pieces.push(Piece::plain(s.as_str()));
    }
    assert(piece_views(pieces@) =~= head + description);
    pieces.push(Piece::plain(" gewählt."));
    let ghost chosen = head + description + seq![PieceView::plain(" gewählt."@)];
    assert(piece_views(pieces@) =~= chosen);
    let examples = tag.examples();
    assert(examples@.len() == tag.spec_examples().len());
    let ghost values = if tag.spec_examples().len() == 0 {
        Seq::empty()
    } else {
        seq![PieceView::plain(EXAMPLES@)] + example_pieces(tag.spec_examples())
    };
    if examples.len() != 0 {
        pieces.push(Piece::plain(EXAMPLES));
        assert(piece_views(pieces@) =~= chosen + seq![PieceView::plain(EXAMPLES@)]);
        push_examples(&mut pieces, &examples);
    }
    assert(piece_views(pieces@) =~= chosen + values);
    pieces.push(Piece::plain(ASK_PATTERN));
    pieces.push(Piece::code("Wert"));
    pieces.push(Piece::plain(" oder "));
    pieces.push(Piece::code("Option 1|Option 2"));
    pieces.push(Piece::plain(NEGATION));
    assert(piece_views(pieces@) =~= tag_chosen(tag));
    pieces
}

/// Finds the button that an answer comes from.
fn find_button(answer: &Answer) -> (r: Option<TagButton>)
    ensures
        r == first_answered(tag_buttons(), *answer),
{
    let choices = buttons();
    match match_action(&choices, answer) {
        Some(i) => Some(choices[i]),
        None => None,
    }
}

/// The text that answers an answer that is no choice.
pub open spec fn invalid_tag() -> Seq<char> {
    INVALID_TAG@ + CommandKind::Cancel.spec_name() + INVALID_TAG_END@
}

impl TagSelection {
    /// Takes up the choice of a tag, or that the rule has to be saved.
    pub fn handle_message(self, answer: &Answer, channel: Option<SelectedChannel>) -> (r: Result<
        TagStep,
        MessageError,
    >)
        ensures
            match first_answered(tag_buttons(), *answer) {
                Some(TagButton::Save) => match r {
                    Ok(TagStep::Save(filter)) => filter@ == condition_views(
                        self.previous_conditions@,
                    ),
                    _ => false,
                },
                Some(TagButton::Select(tag)) => match r {
                    Ok(TagStep::Reply(p)) => planned(
                        Ok(p),
                        WriteView::Store(
                            DialogueView {
                                channel: opt_channel(channel),
                                state: StateView::PatternInput {
                                    conditions: condition_views(self.previous_conditions@),
                                    tag,
                                },
                            },
                        ),
                        tag_chosen(tag),
                        Some(MarkupView::force_reply(PATTERN_HINT@)),
                    ),
                    Ok(TagStep::Save(_)) => false,
                    Err(_) => !fits(tag_chosen(tag)),
                },
                None => match r {
                    Ok(TagStep::Reply(p)) => p@ == (PlanView {
                        dialogue: WriteView::Keep,
                        reply: text_reply(invalid_tag(), Some(tag_keyboard())),
                    }),
                    _ => false,
                },
            },
    {
        match find_button(answer) {
            Some(TagButton::Save) => Ok(
                TagStep::Save(Filter { conditions: self.previous_conditions }),
            ),
            Some(TagButton::Select(tag)) => {
                let state = PatternInput { previous_conditions: self.previous_conditions, tag };
                let write = DialogueWrite::Store(
                    Dialogue { channel, state: DialogueState::PatternInput(state) },
                );
                match plan(write, describe_tag(tag), Some(force_reply(PATTERN_HINT))) {
                    Ok(p) => Ok(TagStep::Reply(p)),
                    Err(e) => Err(e),
                }
            },
            None => {
                let mut text = INVALID_TAG.to_owned();
                text.append(CommandKind::Cancel.name());
                text.append(INVALID_TAG_END);
                let reply = Reply::text(text.as_str(), Some(keyboard()));
                Ok(TagStep::Reply(Plan { dialogue: DialogueWrite::Keep, reply }))
            },
        }
    }
}

/// What is shown when a rule was saved.
pub open spec fn saved(channel: Option<ChannelView>) -> Seq<PieceView> {
    seq![PieceView::plain(SAVED@)] + selection_accusative(channel) + seq![
        PieceView::plain(SAVED_END@),
    ]
}

/// Ends the creation of a rule that was saved.
pub fn rule_saved(channel: Option<SelectedChannel>) -> (r: Result<Plan, MessageError>)
    requires
        showable(opt_channel(channel)),
    ensures
        planned(
            r,
            reset_view(opt_channel(channel)),
            saved(opt_channel(channel)),
            Some(MarkupView::RemoveKeyboard),
        ),
{
    let mut target = SelectedChannel::chat_selection_accusative(&channel);
    let ghost target_views = piece_views(target@);
    let mut pieces = vec![Piece::plain(SAVED)];
    pieces.append(&mut target);
    pieces.push(Piece::plain(SAVED_END));
    assert(piece_views(pieces@) =~= saved(opt_channel(channel)));
    plan(reset(channel), pieces, Some(ReplyMarkup::RemoveKeyboard))
}

/// Adds a rule to those of a chat.
pub fn add_filter(filters: &mut Vec<Filter>, filter: Filter)
    ensures
        filter_views(final(filters)@) == filter_views(old(filters)@).push(filter@),
        final(filters)@ == old(filters)@.push(filter),
{
    filters.push(filter);
    assert(filter_views(filters@) =~= filter_views(old(filters)@).push(filter@));
}

/// So many bytes a pattern may take when it is compiled.
pub const PATTERN_SIZE_LIMIT: usize = 10_000;

/// What [`RegexBuilder`] with a size limit has against a pattern: nothing, that
/// it is too big, or what the error says. The size of a compiled pattern depends
/// on the number of bits in a machine word.
pub uninterp spec fn pattern_complaint(
    pattern: Seq<char>,
    size_limit: int,
    word_bits: int,
) -> Option<Option<Seq<char>>>;

/// What is wrong with a pattern.
#[derive(Debug, PartialEq, Eq)]
pub enum PatternError {
    Newline,
    TooBig,
    Invalid(String),
}

/// What is wrong with a pattern, if anything.
pub enum CheckView {
    Fine,
    Newline,
    TooBig,
    Invalid(Seq<char>),
}

/// What is wrong with a pattern, if anything.
pub open spec fn check_view(checked: Result<(), PatternError>) -> CheckView {
    match checked {
        Ok(_) => CheckView::Fine,
        Err(PatternError::Newline) => CheckView::Newline,
        Err(PatternError::TooBig) => CheckView::TooBig,
        Err(PatternError::Invalid(text)) => CheckView::Invalid(text@),
    }
}

/// What is wrong with a pattern that a user entered. Line breaks are refused
/// first.
pub open spec fn entered_check(pattern: Seq<char>) -> CheckView {
    if pattern.contains('\n') {
        CheckView::Newline
    } else {
        match pattern_complaint(pattern, PATTERN_SIZE_LIMIT as int, usize::BITS as int) {
            None => CheckView::Fine,
            Some(None) => CheckView::TooBig,
            Some(Some(text)) => CheckView::Invalid(text),
        }
    }
}

/// Builds the pattern with [`RegexBuilder`] and a size limit: what there is to
/// complain about depends on the pattern, the limit and the size of a machine
/// word alone.
#[verifier::external_body]
fn check_pattern(pattern: &str, size_limit: usize) -> (r: Result<(), PatternError>)
    ensures
        ({
            let complaint = pattern_complaint(pattern@, size_limit as int, usize::BITS as int);
            match r {
                Ok(_) => complaint is None,
                Err(PatternError::TooBig) => complaint == Some(None::<Seq<char>>),
                Err(PatternError::Invalid(text)) => complaint == Some(Some(text@)),
                Err(PatternError::Newline) => false,
            }
        }),
{
    match RegexBuilder::new(pattern).size_limit(size_limit).build() {
        Ok(_) => Ok(()),
        Err(regex::Error::CompiledTooBig(_)) => Err(PatternError::TooBig),
        Err(e) => Err(PatternError::Invalid(e.to_string())),
    }
}

/// The bot waits for a pattern.
#[derive(Debug, PartialEq, Eq)]
pub struct PatternInput {
    pub previous_conditions: Vec<Condition>,
    pub tag: Tag,
}

/// An exclamation mark at the start negates the condition.
pub open spec fn negated(text: Seq<char>) -> bool {
    has_prefix(text, "!"@)
}

/// The pattern without the exclamation mark.
pub open spec fn raw_pattern(text: Seq<char>) -> Seq<char> {
    match stripped(text, "!"@) {
        Some(rest) => rest,
        None => text,
    }
}

/// What is shown for a pattern that is refused.
pub open spec fn complaint_pieces(check: CheckView) -> Seq<PieceView> {
    match check {
        CheckView::Fine => Seq::empty(),
        CheckView::Newline => seq![PieceView::plain(NEWLINE_REFUSED@)],
        CheckView::TooBig => seq![PieceView::plain(PATTERN_TOO_BIG@)],
        CheckView::Invalid(text) => seq![
            PieceView::plain(PATTERN_INVALID@),
            PieceView::pre(text),
        ],
    }
}

/// The text that is shown when a condition was added.
pub open spec fn added_text(conditions: Seq<ConditionView>) -> Seq<char> {
    CONDITION_ADDED@ + filter_text(conditions) + CONDITION_ADDED_END@
}

/// The result of entering a pattern.
pub open spec fn pattern_planned(
    r: Result<Plan, MessageError>,
    state: PatternInput,
    negate: bool,
    pattern: Seq<char>,
    check: CheckView,
    channel: Option<ChannelView>,
) -> bool {
    if check is Fine {
        let condition = ConditionView { tag: state.tag, pattern, negate };
        let conditions = condition_views(state.previous_conditions@).push(condition);
        planned(
            r,
            WriteView::Store(
                DialogueView { channel, state: StateView::TagSelection { conditions } },
            ),
            seq![PieceView::plain(added_text(conditions))],
            Some(tag_keyboard()),
        )
    } else {
        planned(
            r,
            WriteView::Keep,
            complaint_pieces(check),
            Some(MarkupView::force_reply(PATTERN_HINT@)),
        )
    }
}

impl PatternInput {
    /// Takes up a pattern of which it is known what there is to complain about.
    pub fn on_checked(
        self,
        negate: bool,
        pattern: &str,
        checked: Result<(), PatternError>,
        channel: Option<SelectedChannel>,
    ) -> (r: Result<Plan, MessageError>)
        ensures
            pattern_planned(r, self, negate, pattern@, check_view(checked), opt_channel(channel)),
    {
        if let Err(e) = &checked {
            let pieces = match e {
                PatternError::Newline => vec![Piece::plain(NEWLINE_REFUSED)],
                PatternError::TooBig => vec![Piece::plain(PATTERN_TOO_BIG)],
                PatternError::Invalid(text) => vec![
                    Piece::plain(PATTERN_INVALID),
                    Piece::pre(text.as_str()),
                ],
            };
            assert(piece_views(pieces@) =~= complaint_pieces(check_view(checked)));
            return plan(DialogueWrite::Keep, pieces, Some(force_reply(PATTERN_HINT)));
        }
        let mut conditions = self.previous_conditions;
        conditions.push(Condition { tag: self.tag, pattern: pattern.to_owned(), negate });
        let summary = Filter { conditions };
        let ghost views = summary@;
        assert(views =~= condition_views(self.previous_conditions@).push(
            ConditionView { tag: self.tag, pattern: pattern@, negate },
        ));
        let mut text = CONDITION_ADDED.to_owned();
        let shown = summary.to_text();
        text.append(shown.as_str());
        text.append(CONDITION_ADDED_END);
        let pieces = vec![Piece::plain(text.as_str())];
        assert(piece_views(pieces@) =~= seq![PieceView::plain(added_text(views))]);
        let state = TagSelection { previous_conditions: summary.conditions };
        plan(
            DialogueWrite::Store(Dialogue { channel, state: DialogueState::TagSelection(state) }),
            pieces,
            Some(keyboard()),
        )
    }

    /// Takes up a pattern. Line breaks are not allowed, and regular expressions
    /// that are invalid or too big are refused.
    pub fn handle_message(self, text: Option<&str>, channel: Option<SelectedChannel>) -> (r: Result<
        Plan,
        HandlerError,
    >)
        ensures
            match opt_text(text) {
                None => r is Err && r->Err_0 is UnexpectedMessage,
                Some(t) => {
                    let pattern = raw_pattern(t);
                    let check = entered_check(pattern);
                    let channel = opt_channel(channel);
                    match r {
                        Ok(p) => pattern_planned(Ok(p), self, negated(t), pattern, check, channel),
                        Err(HandlerError::MessageBuilder(e)) => pattern_planned(
                            Err(e),
                            self,
                            negated(t),
                            pattern,
                            check,
                            channel,
                        ),
                        Err(_) => false,
                    }
                },
            },
    {
        let text = match text {
            Some(text) => text,
            None => return Err(HandlerError::UnexpectedMessage),
        };
        let (negate, pattern) = match strip_prefix(text, "!") {
            Some(rest) => (true, rest),
            None => (false, text),
        };
        proof {
            crate::text::lemma_find_char(pattern@, '\n');
        }
        let checked = if find(pattern, '\n').is_some() {
            Err(PatternError::Newline)
        } else {
            check_pattern(pattern, PATTERN_SIZE_LIMIT)
        };
        assert(check_view(checked) == entered_check(pattern@));
        match self.on_checked(negate, pattern, checked, channel) {
            Ok(p) => Ok(p),
            Err(e) => Err(HandlerError::MessageBuilder(e)),
        }
    }
}

/// No two buttons say the same.
pub proof fn law_tag_buttons_differ(a: TagButton, b: TagButton)
    requires
        a.spec_text() == b.spec_text(),
    ensures
        a == b,
{
    reveal_strlit("✅ Speichern");
    reveal_strlit("Drucksachen-Nummer");
    reveal_strlit("Art der Vorlage");
    reveal_strlit("Gremium");
    reveal_strlit("Antrag- oder Fragesteller:in");
    reveal_strlit("Federführendes Amt");
    reveal_strlit("Beteiligtes Amt");
    assert("✅ Speichern"@.len() == 11);
    assert("Drucksachen-Nummer"@.len() == 18 && "Drucksachen-Nummer"@[0] == 'D');
    assert("Art der Vorlage"@.len() == 15 && "Art der Vorlage"@[0] == 'A');
    assert("Gremium"@.len() == 7);
    assert("Antrag- oder Fragesteller:in"@.len() == 28);
    assert("Federführendes Amt"@.len() == 18 && "Federführendes Amt"@[0] == 'F');
    assert("Beteiligtes Amt"@.len() == 15 && "Beteiligtes Amt"@[0] == 'B');
}

/// Each of the buttons chooses what it says.
pub proof fn law_buttons_choose_what_they_say(b: TagButton, answer: Answer)
    requires
        opt_string(answer.text) == Some(b.spec_text()),
    ensures
        first_answered(tag_buttons(), answer) == Some(b),
{
    let buttons = tag_buttons();
    let i: int = match b {
        TagButton::Select(Tag::Dsnr) => 0,
        TagButton::Select(Tag::Art) => 1,
        TagButton::Select(Tag::Beteiligt) => 2,
        TagButton::Select(Tag::Federfuehrend) => 3,
        TagButton::Select(Tag::Gremium) => 4,
        TagButton::Select(Tag::Verfasser) => 5,
        TagButton::Save => 6,
    };
    assert(buttons.len() == 7);
    assert(buttons[i] == b);
    assert forall|j: int| 0 <= j < i implies !(#[trigger] buttons[j]).spec_button().answered_by(
        answer,
    ) by {
        if buttons[j].spec_text() == b.spec_text() {
            law_tag_buttons_differ(buttons[j], b);
            assert(buttons[j] == b);
        }
    }
    lemma_first_answered(buttons, answer, i);
}

/// A pattern that was entered becomes the last condition of the rule, for the
/// tag that was chosen. An exclamation mark in front is no part of the pattern:
/// it negates the condition, and nothing else does. Conditions entered before
/// and the selected chat stay.
pub proof fn law_entered_pattern_becomes_condition(
    state: PatternInput,
    text: &str,
    channel: Option<SelectedChannel>,
    r: Plan,
    pattern: Seq<char>,
)
    requires
        call_ensures(PatternInput::handle_message, (state, Some(text), channel), Ok(r)),
        r.dialogue is Store,
        text@ == pattern.insert(0, '!') || (text@ == pattern && (pattern.len() == 0 || pattern[0]
            != '!')),
    ensures
        r.dialogue matches DialogueWrite::Store(d) && {
            let before = state.previous_conditions@;
            &&& opt_channel(d.channel) == opt_channel(channel)
            &&& d.state matches DialogueState::TagSelection(s) && {
                let conditions = s.previous_conditions@;
                let last = conditions.last();
                &&& conditions.len() == before.len() + 1
                &&& forall|i: int|
                    0 <= i < before.len() ==> (#[trigger] conditions[i])@ == before[i]@
                &&& last.tag == state.tag
                &&& last.pattern@ == pattern
                &&& last.negate <==> text@.len() == pattern.len() + 1
            }
        },
{
    reveal_strlit("!");
    assert("!"@ =~= seq!['!']);
    if text@ == pattern.insert(0, '!') {
        assert(text@.take(1) =~= "!"@);
        assert(text@.skip(1) =~= pattern);
    } else if text@.len() > 0 {
        assert(text@.take(1)[0] == pattern[0]);
    }
    assert(raw_pattern(text@) == pattern);
    let before = state.previous_conditions@;
    let condition = ConditionView { tag: state.tag, pattern, negate: negated(text@) };
    let views = condition_views(before).push(condition);
    if let DialogueWrite::Store(d) = r.dialogue {
        assert(r.dialogue@ == WriteView::Store(d@));
        assert(d@.state == StateView::TagSelection { conditions: views });
        if let DialogueState::TagSelection(s) = d.state {
            let conditions = s.previous_conditions@;
            assert(condition_views(conditions) == views);
            assert(conditions.len() == views.len());
            assert(views[before.len() as int] == conditions.last()@);
            assert forall|i: int| 0 <= i < before.len() implies (#[trigger] conditions[i])@
                == before[i]@ by {
                assert(views[i] == conditions[i]@);
                assert(condition_views(before)[i] == before[i]@);
            }
        }
    }
}

/// A pattern is refused exactly if it holds a line break or cannot be compiled
/// within the limit. The dialogue then stays as it is, and the user is asked
/// again. What is no text at all is not answered.
pub proof fn law_bad_patterns_are_refused(
    state: PatternInput,
    text: &str,
    channel: Option<SelectedChannel>,
    r: Plan,
    no_text: Result<Plan, HandlerError>,
    pattern: Seq<char>,
)
    requires
        call_ensures(PatternInput::handle_message, (state, Some(text), channel), Ok(r)),
        call_ensures(PatternInput::handle_message, (state, None, channel), no_text),
        text@ == pattern.insert(0, '!') || (text@ == pattern && (pattern.len() == 0 || pattern[0]
            != '!')),
    ensures
        no_text matches Err(HandlerError::UnexpectedMessage),
        r.dialogue is Store <==> !pattern.contains('\n') && pattern_complaint(
            pattern,
            10_000,
            usize::BITS as int,
        ) is None,
        r.dialogue is Store || r.dialogue is Keep,
        r.dialogue is Keep ==> r.reply.markup is Some && r.reply.markup->0 is ForceReply,
        r.dialogue is Store ==> r.reply.markup is Some && r.reply.markup->0 is Keyboard,
{
    reveal_strlit("!");
    assert("!"@ =~= seq!['!']);
    if text@ == pattern.insert(0, '!') {
        assert(text@.take(1) =~= "!"@);
        assert(text@.skip(1) =~= pattern);
    } else if text@.len() > 0 {
        assert(text@.take(1)[0] == pattern[0]);
    }
    assert(raw_pattern(text@) == pattern);
}

/// What was found out about a pattern decides: it is taken if there is nothing
/// against it, as it was given, and refused otherwise. The rule as it is then is
/// shown.
pub proof fn law_check_decides(
    state: PatternInput,
    negate: bool,
    pattern: &str,
    checked: Result<(), PatternError>,
    channel: Option<SelectedChannel>,
    r: Plan,
    rule: Filter,
    shown: String,
)
    requires
        call_ensures(
            PatternInput::on_checked,
            (state, negate, pattern, checked, channel),
            Ok(r),
        ),
        rule.conditions@.len() == state.previous_conditions@.len() + 1,
        forall|i: int|
            0 <= i < state.previous_conditions@.len() ==> (#[trigger] rule.conditions@[i])@
                == state.previous_conditions@[i]@,
        rule.conditions@.last().tag == state.tag,
        rule.conditions@.last().pattern@ == pattern@,
        rule.conditions@.last().negate == negate,
        call_ensures(Filter::to_text, (&rule,), shown),
    ensures
        checked is Ok <==> r.dialogue is Store,
        checked is Err <==> r.dialogue is Keep,
        checked is Ok ==> r.reply.text@ == "Bedingung hinzugefügt – aktuelle Regel:\n\n"@ + shown@
            + "\nWähle ein weiteres Merkmal oder tippe auf „Speichern“."@,
        r.dialogue matches DialogueWrite::Store(d) ==> d@.channel == opt_channel(channel)
            && d@.state == (StateView::TagSelection { conditions: rule@ }),
        checked matches Err(PatternError::Invalid(why)) ==> r.reply.text@.len() >= why@.len()
            && r.reply.text@.skip(r.reply.text@.len() - why@.len()) == why@,
{
    let before = condition_views(state.previous_conditions@);
    let condition = ConditionView { tag: state.tag, pattern: pattern@, negate };
    assert(rule@ =~= before.push(condition)) by {
        assert forall|i: int| 0 <= i < rule@.len() implies rule@[i] == before.push(condition)[i] by {
            assert(rule@[i] == rule.conditions@[i]@);
            if i < before.len() {
                assert(before[i] == state.previous_conditions@[i]@);
            }
        }
    }
    match checked {
        Ok(_) => {
            let pieces = seq![PieceView::plain(added_text(rule@))];
            assert(pieces.drop_last() =~= Seq::<PieceView>::empty());
            assert(crate::rich_text::text_of(pieces.drop_last()) =~= Seq::<char>::empty());
            assert(crate::rich_text::text_of(pieces) =~= added_text(rule@));
        },
        Err(PatternError::Invalid(why)) => {
            let pieces = complaint_pieces(check_view(checked));
            assert(pieces.last() == PieceView::pre(why@));
            let text = crate::rich_text::text_of(pieces);
            assert(text == crate::rich_text::text_of(pieces.drop_last()) + why@);
            assert(text.skip(text.len() - why@.len()) =~= why@);
        },
        _ => {},
    }
}

/// Saving a rule saves the conditions that were entered, all of them. A tag that
/// is chosen is the one whose pattern is asked for next, and keeps the conditions
/// and the selected chat. Any other answer changes nothing.
pub proof fn law_choice_leads_on(
    state: TagSelection,
    answer: &Answer,
    channel: Option<SelectedChannel>,
    r: TagStep,
    tag: Tag,
)
    requires
        call_ensures(TagSelection::handle_message, (state, answer, channel), Ok(r)),
    ensures
        opt_string(answer.text) == Some("✅ Speichern"@) ==> (r matches TagStep::Save(rule) && rule@
            == condition_views(state.previous_conditions@)),
        opt_string(answer.text) == Some(tag.spec_label()) ==> (r matches TagStep::Reply(p) && {
            &&& p.dialogue@ == WriteView::Store(
                DialogueView {
                    channel: opt_channel(channel),
                    state: StateView::PatternInput {
                        conditions: condition_views(state.previous_conditions@),
                        tag,
                    },
                },
            )
            &&& p.reply.markup is Some && p.reply.markup->0 is ForceReply
        }),
        (opt_string(answer.text) != Some("✅ Speichern"@) && forall|t: Tag|
            opt_string(answer.text) != Some(#[trigger] t.spec_label())) ==> (r matches TagStep::Reply(
            p,
        ) && p.dialogue is Keep && p.reply.markup is Some && p.reply.markup->0 is Keyboard),
{
    if opt_string(answer.text) == Some("✅ Speichern"@) {
        law_buttons_choose_what_they_say(TagButton::Save, *answer);
    }
    if opt_string(answer.text) == Some(tag.spec_label()) {
        law_buttons_choose_what_they_say(TagButton::Select(tag), *answer);
    }
    if opt_string(answer.text) != Some("✅ Speichern"@) && forall|t: Tag|
        opt_string(answer.text) != Some(#[trigger] t.spec_label()) {
        let buttons = tag_buttons();
        assert forall|j: int| 0 <= j < buttons.len() implies !(
        #[trigger] buttons[j]).spec_button().answered_by(*answer) by {
            match buttons[j] {
                TagButton::Save => {},
                TagButton::Select(t) => {
                    assert(opt_string(answer.text) != Some(t.spec_label()));
                },
            }
        }
        lemma_first_answered(buttons, *answer, buttons.len() as int);
    }
}

/// A new rule starts without conditions, for the chat that is selected. Once it
/// is saved, the dialogue is over, and the chat stays selected.
pub proof fn law_rule_starts_empty(
    dialogue: Dialogue,
    r: Plan,
    channel: Option<SelectedChannel>,
    saved: Plan,
)
    requires
        showable(dialogue@.channel),
        showable(opt_channel(channel)),
        call_ensures(handle_command, (dialogue,), Ok(r)),
        call_ensures(rule_saved, (channel,), Ok(saved)),
    ensures
        r.dialogue matches DialogueWrite::Store(d) && opt_channel(d.channel) == opt_channel(
            dialogue.channel,
        ) && (d.state matches DialogueState::TagSelection(s) && s.previous_conditions@.len() == 0),
        r.reply.markup is Some && r.reply.markup->0 is Keyboard,
        saved.dialogue matches DialogueWrite::Store(d) && opt_channel(d.channel) == opt_channel(
            channel,
        ) && d.state is Initial,
        saved.reply.markup is Some && saved.reply.markup->0 is RemoveKeyboard,
{
    if let DialogueWrite::Store(d) = r.dialogue {
        if let DialogueState::TagSelection(s) = d.state {
            assert(condition_views(s.previous_conditions@).len() == s.previous_conditions@.len());
        }
    }
}

/// A rule is added behind the others, which stay.
pub proof fn law_rule_is_added(filters: &mut Vec<Filter>, filter: Filter)
    requires
        call_ensures(add_filter, (filters, filter), ()),
    ensures
        final(filters)@ == old(filters)@.push(filter),
{
}

/// Every tag has a button, and so has saving the rule; there is no other.
pub proof fn law_all_choices_have_buttons(r: Vec<TagButton>, b: TagButton)
    requires
        call_ensures(buttons, (), r),
    ensures
        r@.contains(b),
        r@.no_duplicates(),
        r@.len() == 7,
        r@.last() == TagButton::Save,
{
    let i: int = match b {
        TagButton::Select(Tag::Dsnr) => 0,
        TagButton::Select(Tag::Art) => 1,
        TagButton::Select(Tag::Beteiligt) => 2,
        TagButton::Select(Tag::Federfuehrend) => 3,
        TagButton::Select(Tag::Gremium) => 4,
        TagButton::Select(Tag::Verfasser) => 5,
        TagButton::Save => 6,
    };
    assert(r@[i] == b);
}

/// When a tag was chosen, the reply names it, says what it means where that is
/// known, gives the examples of its values, and tells how a condition is
/// negated.
pub proof fn law_chosen_tag_is_explained(
    state: TagSelection,
    answer: &Answer,
    channel: Option<SelectedChannel>,
    p: Plan,
    tag: Tag,
    label: &'static str,
    description: Option<&'static str>,
    examples: Vec<&'static str>,
    i: int,
)
    requires
        call_ensures(
            TagSelection::handle_message,
            (state, answer, channel),
            Ok(TagStep::Reply(p)),
        ),
        opt_string(answer.text) == Some(tag.spec_label()),
        call_ensures(Tag::label, (&tag,), label),
        call_ensures(Tag::description, (&tag,), description),
        call_ensures(Tag::examples, (&tag,), examples),
    ensures
        super::help::occurs(p.reply.text@, label@),
        description matches Some(d) ==> super::help::occurs(p.reply.text@, d@),
        0 <= i < examples@.len() ==> super::help::occurs(p.reply.text@, examples@[i]@),
        super::help::occurs(
            p.reply.text@,
            "beginne mit einem Ausrufezeichen – dann werden alle Vorlagen, auf die das Pattern zutrifft, ausgeschlossen."@,
        ),
{
    law_buttons_choose_what_they_say(TagButton::Select(tag), *answer);
    let pieces = tag_chosen(tag);
    assert(p.reply.text@ == crate::rich_text::text_of(pieces));
    lemma_tag_chosen(tag, i);
    assert(texts(examples@).len() == examples@.len());
    if 0 <= i < examples@.len() {
        assert(texts(examples@)[i] == examples@[i]@);
    }
    let z = pieces.len() - 1;
    assert(pieces[z] == PieceView::plain(NEGATION@));
    lemma_negation_is_explained();
    super::help::lemma_occurs_in_pieces(
        pieces,
        z,
        "beginne mit einem Ausrufezeichen – dann werden alle Vorlagen, auf die das Pattern zutrifft, ausgeschlossen."@,
    );
}

/// What is said of a tag stands in the text.
proof fn lemma_tag_chosen(tag: Tag, i: int)
    ensures
        ({
            let text = crate::rich_text::text_of(tag_chosen(tag));
            &&& super::help::occurs(text, tag.spec_label())
            &&& tag.spec_description() matches Some(d) ==> super::help::occurs(text, d)
            &&& 0 <= i < tag.spec_examples().len() ==> super::help::occurs(
                text,
                tag.spec_examples()[i],
            )
        }),
{
    let pieces = tag_chosen(tag);
    let head = seq![PieceView::plain("Du hast das Merkmal "@), PieceView::bold(tag.spec_label())];
    let described = match tag.spec_description() {
        Some(d) => seq![PieceView::plain(" ("@ + d + ")"@)],
        None => Seq::empty(),
    };
    let values = example_pieces(tag.spec_examples());
    assert(pieces[1] == PieceView::bold(tag.spec_label()));
    super::help::lemma_occurs_whole(tag.spec_label());
    super::help::lemma_occurs_in_pieces(pieces, 1, tag.spec_label());
    if let Some(d) = tag.spec_description() {
        assert(pieces[2] == described[0]);
        super::help::lemma_occurs_between(" ("@, d, ")"@);
        super::help::lemma_occurs_in_pieces(pieces, 2, d);
    }
    if 0 <= i < tag.spec_examples().len() {
        let example = tag.spec_examples()[i];
        let k = lemma_example_pieces(tag.spec_examples(), i);
        let at = head.len() + described.len() + 2 + k;
        assert(pieces[at] == values[k]);
        super::help::lemma_occurs_whole(example);
        super::help::lemma_occurs_in_pieces(pieces, at, example);
    }
}

proof fn lemma_negation_is_explained()
    ensures
        super::help::occurs(
            NEGATION@,
            "beginne mit einem Ausrufezeichen – dann werden alle Vorlagen, auf die das Pattern zutrifft, ausgeschlossen."@,
        ),
{
    let start = ". Um die Bedingung umzudrehen, ";
    let end = "beginne mit einem Ausrufezeichen – dann werden alle Vorlagen, auf die das Pattern zutrifft, ausgeschlossen.";
    reveal_strlit(
        ". Um die Bedingung umzudrehen, beginne mit einem Ausrufezeichen – dann werden alle Vorlagen, auf die das Pattern zutrifft, ausgeschlossen.",
    );
    reveal_strlit(". Um die Bedingung umzudrehen, ");
    reveal_strlit(
        "beginne mit einem Ausrufezeichen – dann werden alle Vorlagen, auf die das Pattern zutrifft, ausgeschlossen.",
    );
    assert(NEGATION@ =~= start@ + end@ + Seq::empty());
    super::help::lemma_occurs_between(start@, end@, Seq::empty());
}

proof fn lemma_example_pieces(examples: Seq<Seq<char>>, i: int) -> (k: int)
    requires
        0 <= i < examples.len(),
    ensures
        0 <= k < example_pieces(examples).len(),
        example_pieces(examples)[k] == PieceView::code(examples[i]),
    decreases examples.len(),
{
    if examples.len() == 1 {
        0
    } else if i == examples.len() - 1 {
        example_pieces(examples).len() - 1
    } else {
        lemma_example_pieces(examples.drop_last(), i)
    }
}

/// The start of a rule and its end say for which chat the rule is.
pub proof fn law_rule_names_its_chat(
    dialogue: Dialogue,
    r: Plan,
    selected: Vec<Piece>,
    shown: (String, Vec<crate::message_builder::MessageEntity>),
    saved_plan: Plan,
    object: Vec<Piece>,
    named: (String, Vec<crate::message_builder::MessageEntity>),
)
    requires
        showable(dialogue@.channel),
        call_ensures(handle_command, (dialogue,), Ok(r)),
        call_ensures(rule_saved, (dialogue.channel,), Ok(saved_plan)),
        call_ensures(SelectedChannel::chat_selection, (&dialogue.channel,), selected),
        call_ensures(SelectedChannel::chat_selection_accusative, (&dialogue.channel,), object),
        call_ensures(crate::rich_text::render, (&selected,), Ok(shown)),
        call_ensures(crate::rich_text::render, (&object,), Ok(named)),
    ensures
        r.reply.text@.len() >= shown.0@.len(),
        r.reply.text@.skip(r.reply.text@.len() - shown.0@.len()) == shown.0@,
        super::help::occurs(r.reply.text@, "Regel erstellen"@),
        saved_plan.reply.text@ == "✅ Die Regel für "@ + named.0@
            + " wurde gespeichert und ist nun aktiv!"@,
{
    let pieces = introduction(dialogue@.channel);
    let start = seq![
        PieceView::plain("🎛\u{fe0f} "@),
        PieceView::bold(TITLE@),
        PieceView::plain(INTRODUCTION@),
    ];
    super::help::lemma_text_of_concat(start, selection(dialogue@.channel));
    assert(r.reply.text@.skip(r.reply.text@.len() - shown.0@.len()) =~= shown.0@);
    assert(pieces[1] == PieceView::bold(TITLE@));
    super::help::lemma_occurs_whole(TITLE@);
    super::help::lemma_occurs_in_pieces(pieces, 1, TITLE@);
    super::help::lemma_text_of_around(
        PieceView::plain(SAVED@),
        selection_accusative(dialogue@.channel),
        PieceView::plain(SAVED_END@),
    );
}

/// An answer that is no choice is told how to go on, or how to stop.
pub proof fn law_wrong_choice_is_explained(
    state: TagSelection,
    answer: &Answer,
    channel: Option<SelectedChannel>,
    p: Plan,
    name: &'static str,
)
    requires
        call_ensures(
            TagSelection::handle_message,
            (state, answer, channel),
            Ok(TagStep::Reply(p)),
        ),
        p.dialogue is Keep,
        call_ensures(CommandKind::name, (&CommandKind::Cancel,), name),
    ensures
        p.reply.text@ == "\u{fe0f}Bitte wähle ein gültiges Merkmal aus, oder sende /"@ + name@
            + " zum Abbrechen"@,
{
}

/// Each thing that can be wrong with a pattern is told in its own words.
pub proof fn law_complaints_are_told(
    state: PatternInput,
    negate: bool,
    pattern: &str,
    channel: Option<SelectedChannel>,
    newline: Plan,
    big: Plan,
    why: String,
    invalid: Plan,
)
    requires
        call_ensures(
            PatternInput::on_checked,
            (state, negate, pattern, Err(PatternError::Newline), channel),
            Ok(newline),
        ),
        call_ensures(
            PatternInput::on_checked,
            (state, negate, pattern, Err(PatternError::TooBig), channel),
            Ok(big),
        ),
        call_ensures(
            PatternInput::on_checked,
            (state, negate, pattern, Err(PatternError::Invalid(why)), channel),
            Ok(invalid),
        ),
    ensures
        newline.reply.text@
            == "❌ Ungültiges Regex-Pattern: Zeilenumbrüche sind nicht erlaubt. Bitte versuche es erneut."@,
        big.reply.text@
            == "❌ Ungültiges Regex-Pattern: Das Pattern ist zu groß. Bitte versuche es erneut."@,
        invalid.reply.text@
            == "❌ Ungültiges Regex-Pattern. Bitte versuche es erneut. Tipp: Frage ChatGPT um Hilfe.\n\n"@
            + why@,
{
    super::help::lemma_text_of_around(
        PieceView::plain(NEWLINE_REFUSED@),
        Seq::empty(),
        PieceView::plain(NEWLINE_REFUSED@),
    );
    super::help::lemma_text_of_around(
        PieceView::plain(PATTERN_TOO_BIG@),
        Seq::empty(),
        PieceView::plain(PATTERN_TOO_BIG@),
    );
    let pieces = seq![PieceView::plain(PATTERN_INVALID@), PieceView::pre(why@)];
    super::help::lemma_text_of_around(
        PieceView::plain(PATTERN_INVALID@),
        Seq::empty(),
        PieceView::pre(why@),
    );
    assert(pieces =~= seq![PieceView::plain(PATTERN_INVALID@)] + Seq::<PieceView>::empty() + seq![
        PieceView::pre(why@),
    ]);
    assert(PATTERN_INVALID@ + crate::rich_text::text_of(Seq::<PieceView>::empty()) + why@
        =~= PATTERN_INVALID@ + why@);
}

/// A text is always answered, unless the reply gets too long for a message.
pub proof fn law_texts_are_answered(
    state: PatternInput,
    text: &str,
    channel: Option<SelectedChannel>,
    e: HandlerError,
)
    requires
        call_ensures(PatternInput::handle_message, (state, Some(text), channel), Err(e)),
    ensures
        e is MessageBuilder,
{
}

/// Wherever a tag can be chosen, the keyboard offers all choices. Wherever a
/// pattern is asked for, the hint says so.
pub proof fn law_all_choices_are_offered(
    choices: Vec<TagButton>,
    offered: ReplyMarkup,
    dialogue: Dialogue,
    start: Plan,
    state: TagSelection,
    answer: &Answer,
    channel: Option<SelectedChannel>,
    again: Plan,
    input: PatternInput,
    text: &str,
    entered: Plan,
)
    requires
        call_ensures(buttons, (), choices),
        call_ensures(keyboard_markup::<TagButton>, (&choices,), offered),
        showable(dialogue@.channel),
        call_ensures(handle_command, (dialogue,), Ok(start)),
        call_ensures(
            TagSelection::handle_message,
            (state, answer, channel),
            Ok(TagStep::Reply(again)),
        ),
        call_ensures(PatternInput::handle_message, (input, Some(text), channel), Ok(entered)),
    ensures
        start.reply.markup is Some && start.reply.markup->0@ == offered@,
        again.dialogue is Keep ==> again.reply.markup is Some && again.reply.markup->0@ == offered@,
        again.dialogue is Store ==> (again.reply.markup matches Some(ReplyMarkup::ForceReply {
            placeholder,
            ..
        }) && placeholder@ == "Regex-Pattern"@),
        entered.dialogue is Store ==> entered.reply.markup is Some && entered.reply.markup->0@
            == offered@,
        entered.dialogue is Keep ==> (entered.reply.markup matches Some(ReplyMarkup::ForceReply {
            placeholder,
            ..
        }) && placeholder@ == "Regex-Pattern"@),
{
}

/// The button of a tag says its name, and the other one that the rule is saved.
pub proof fn law_buttons_say_what_they_choose(
    tag: Tag,
    label: &'static str,
    b: Button,
    save: Button,
)
    requires
        call_ensures(Tag::label, (&tag,), label),
        call_ensures(TagButton::button, (&TagButton::Select(tag),), b),
        call_ensures(TagButton::button, (&TagButton::Save,), save),
    ensures
        b matches Button::Text { text } && text@ == label@,
        save matches Button::Text { text } && text@ == "✅ Speichern"@,
{
}

/// The title of a new rule and the name of a tag that was chosen are marked bold,
/// and the examples of its values as code.
pub proof fn law_names_are_marked(
    dialogue: Dialogue,
    start: Plan,
    state: TagSelection,
    answer: &Answer,
    channel: Option<SelectedChannel>,
    p: Plan,
    tag: Tag,
    i: int,
) -> (k: (int, int, int))
    requires
        showable(dialogue@.channel),
        call_ensures(handle_command, (dialogue,), Ok(start)),
        call_ensures(
            TagSelection::handle_message,
            (state, answer, channel),
            Ok(TagStep::Reply(p)),
        ),
        opt_string(answer.text) == Some(tag.spec_label()),
        0 <= i < tag.spec_examples().len(),
    ensures
        0 <= k.0 < start.reply.entities@.len() && start.reply.entities@[k.0].type_field
            == crate::message_builder::MessageEntityType::Bold
            && start.reply.entities@[k.0].length == 15,
        0 <= k.1 < p.reply.entities@.len() && p.reply.entities@[k.1].type_field
            == crate::message_builder::MessageEntityType::Bold && p.reply.entities@[k.1].length
            == crate::text::utf16_len(tag.spec_label()),
        0 <= k.2 < p.reply.entities@.len() && p.reply.entities@[k.2].type_field
            == crate::message_builder::MessageEntityType::Code && p.reply.entities@[k.2].length
            == crate::text::utf16_len(tag.spec_examples()[i]),
{
    law_buttons_choose_what_they_say(TagButton::Select(tag), *answer);
    let first = introduction(dialogue@.channel);
    assert(first[1] == PieceView::bold(TITLE@));
    reveal_strlit("Regel erstellen");
    lemma_title_length();
    let a = crate::rich_text::lemma_piece_is_marked(first, 1);
    let marks = crate::message_builder::entity_views(start.reply.entities@);
    assert(marks.len() == start.reply.entities@.len());
    assert(marks[a] == start.reply.entities@[a]@);
    let pieces = tag_chosen(tag);
    let (b, c) = lemma_tag_is_marked(tag, i);
    let others = crate::message_builder::entity_views(p.reply.entities@);
    assert(others.len() == p.reply.entities@.len());
    assert(others[b] == p.reply.entities@[b]@);
    assert(others[c] == p.reply.entities@[c]@);
    (a, b, c)
}

proof fn lemma_title_length()
    ensures
        crate::text::utf16_len(TITLE@) == 15,
{
    reveal_strlit("Regel erstellen");
    lemma_basic_length(TITLE@);
    assert(TITLE@.len() == 15);
}

/// A text of characters of the basic plane has as many code units.
proof fn lemma_basic_length(s: Seq<char>)
    requires
        forall|i: int| 0 <= i < s.len() ==> (#[trigger] s[i]) as u32 <= 0xffff,
    ensures
        crate::text::utf16_len(s) == s.len(),
    decreases s.len(),
{
    if s.len() > 0 {
        assert(s.last() as u32 <= 0xffff);
        let rest = s.drop_last();
        assert forall|i: int| 0 <= i < rest.len() implies (#[trigger] rest[i]) as u32 <= 0xffff by {
            assert(rest[i] == s[i]);
        }
        lemma_basic_length(rest);
    }
}

proof fn lemma_tag_is_marked(tag: Tag, i: int) -> (k: (int, int))
    requires
        0 <= i < tag.spec_examples().len(),
    ensures
        ({
            let marks = crate::rich_text::entities_of(tag_chosen(tag));
            &&& 0 <= k.0 < marks.len() && marks[k.0].type_field
                == crate::message_builder::MessageEntityType::Bold && marks[k.0].length
                == crate::text::utf16_len(tag.spec_label())
            &&& 0 <= k.1 < marks.len() && marks[k.1].type_field
                == crate::message_builder::MessageEntityType::Code && marks[k.1].length
                == crate::text::utf16_len(tag.spec_examples()[i])
        }),
{
    let pieces = tag_chosen(tag);
    let described = match tag.spec_description() {
        Some(d) => seq![PieceView::plain(" ("@ + d + ")"@)],
        None => Seq::empty(),
    };
    let values = example_pieces(tag.spec_examples());
    assert(pieces[1] == PieceView::bold(tag.spec_label()));
    lemma_label_is_not_empty(tag, i);
    let a = crate::rich_text::lemma_piece_is_marked(pieces, 1);
    let e = lemma_example_pieces(tag.spec_examples(), i);
    let at = 4 + described.len() + e;
    assert(pieces[at] == values[e]);
    let b = crate::rich_text::lemma_piece_is_marked(pieces, at);
    (a, b)
}

proof fn lemma_label_is_not_empty(tag: Tag, i: int)
    requires
        0 <= i < tag.spec_examples().len(),
    ensures
        tag.spec_label().len() > 0,
        tag.spec_examples()[i].len() > 0,
{
    reveal_strlit("Drucksachen-Nummer");
    reveal_strlit("Art der Vorlage");
    reveal_strlit("Gremium");
    reveal_strlit("Antrag- oder Fragesteller:in");
    reveal_strlit("Federführendes Amt");
    reveal_strlit("Beteiligtes Amt");
    reveal_strlit("252807");
    reveal_strlit("242248-02 AA");
    reveal_strlit("Beschlussvorlage, Stellungnahme der Verwaltung");
    reveal_strlit("Anregungen und Beschwerden");
    reveal_strlit("Rat");
    reveal_strlit("Bezirksvertretung Beuel");
    reveal_strlit("Schulausschuss");
    reveal_strlit("Städtebau- und Gestaltungsbeirat");
    reveal_strlit("SPD-Fraktion im Rat der Stadt Bonn");
    reveal_strlit("Patrick Tollasz");
    reveal_strlit("CDU Bezirksfraktion Bad Godesberg");
    reveal_strlit("Dezernat II");
    reveal_strlit("52 Sport- und Bäderamt");
    reveal_strlit("OB-22 Stabsstelle Bürgerbeteiligung");
    reveal_strlit("61-3 Stadtverkehr");
}

} // verus!
