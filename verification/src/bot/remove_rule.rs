//! Removes one of the rules of a chat.

use vstd::prelude::*;
use vstd::string::*;

use super::rules::push_rules;
use super::{plan, reset, CommandKind, Dialogue, DialogueState, DialogueWrite, Plan, Reply};
use crate::channel::SelectedChannel;
use crate::keyboard::{keyboard_markup, match_action, Answer, Button, Choice, ReplyMarkup};
use crate::message_builder::Error as MessageError;
use crate::rich_text::Piece;
use crate::types::{same_filter, Filter};

verus! {

use super::rules::{rule_list, rule_name};
use super::{planned, reset_view, text_reply, DialogueView, PlanView, StateView, WriteView};
use crate::channel::{opt_channel, selection, selection_accusative, showable, ChannelView};
use crate::keyboard::{choice_buttons, rows_of, ButtonView, MarkupView};
use crate::rich_text::{piece_views, PieceView};
use crate::types::{filter_views, ConditionView};

pub const NO_RULES: &'static str = "Zur Zeit sind keine Regeln für ";

pub const NO_RULES_END: &'static str = " aktiv!";

pub const SELECTED: &'static str = "Aktuelle Auswahl: ";

pub const CHOOSE: &'static str = "\n\nWähle einen der folgenden Regeln zum Löschen aus:\n\n";

pub const REMOVED: &'static str = "✅ Die Regel wurde gelöscht!";

pub const NOT_REMOVED: &'static str =
    "❌ Die Regel konnte leider nicht gelöscht werden. Bitte versuche es erneut.";

pub const USE_BUTTONS: &'static str =
    "Bitte nutze die Schaltflächen, um einen Regel auszuwählen, oder sende /";

pub const USE_BUTTONS_END: &'static str = " zum Abbrechen";

/// The bot waits for the choice of a rule to be removed.
#[derive(Debug, PartialEq, Eq)]
pub struct RemoveFilterSelection {
    pub filters: Vec<Filter>,
}

/// The choice of a rule by its place in the list.
#[derive(Debug, Clone, Copy, PartialEq, Eq, Structural)]
pub struct RuleChoice {
    /// Counted from one on.
    pub number: usize,
}

impl Choice for RuleChoice {
    open spec fn spec_button(&self) -> ButtonView {
        ButtonView::Text { text: rule_name(self.number - 1) }
    }

    fn button(&self) -> Button {
        let mut text = "Regel ".to_owned();
        let n = crate::text::decimal_string(self.number as u64);
        text.append(n.as_str());
        Button::Text { text }
    }
}

/// A choice for each rule.
pub open spec fn rule_choices(n: nat) -> Seq<RuleChoice> {
    Seq::new(n, |i: int| RuleChoice { number: (i + 1) as usize })
}

/// A choice for each rule.
pub fn choices(n: usize) -> (r: Vec<RuleChoice>)
    ensures
        r@ == rule_choices(n as nat),
{
    let mut r: Vec<RuleChoice> = Vec::new();
    let mut i: usize = 0;
    while i < n
        invariant
            i <= n,
            r@ == rule_choices(i as nat),
        decreases n - i,
    {
        i = i + 1;
        r.push(RuleChoice { number: i });
        assert(r@ =~= rule_choices(i as nat));
    }
    r
}

/// The keyboard with a button for each rule.
pub open spec fn rule_keyboard(n: nat) -> MarkupView {
    MarkupView::keyboard(rows_of(choice_buttons(rule_choices(n))))
}

/// What is shown where there are no rules.
pub open spec fn no_rules(channel: Option<ChannelView>) -> Seq<PieceView> {
    seq![PieceView::plain(NO_RULES@)] + selection_accusative(channel) + seq![
        PieceView::plain(NO_RULES_END@),
    ]
}

/// Says that there are no rules.
pub fn say_no_rules(channel: &Option<SelectedChannel>) -> (r: Vec<Piece>)
    requires
        showable(opt_channel(*channel)),
    ensures
        piece_views(r@) == no_rules(opt_channel(*channel)),
{
    let mut target = SelectedChannel::chat_selection_accusative(channel);
    let ghost target_views = piece_views(target@);
    let mut pieces = vec![Piece::plain(NO_RULES)];
    pieces.append(&mut target);
    pieces.push(Piece::plain(NO_RULES_END));
    assert(piece_views(pieces@) =~= no_rules(opt_channel(*channel)));
    pieces
}

/// What is shown for the choice of a rule.
pub open spec fn offered_rules(
    channel: Option<ChannelView>,
    filters: Seq<Seq<ConditionView>>,
) -> Seq<PieceView> {
    seq![PieceView::plain(SELECTED@)] + selection(channel) + seq![PieceView::plain(CHOOSE@)]
        + rule_list(filters)
}

/// Lets the user choose a rule to be removed.
pub fn handle_command(dialogue: Dialogue, filters: Vec<Filter>) -> (r: Result<Plan, MessageError>)
    requires
        showable(dialogue@.channel),
    ensures
        if filters@.len() == 0 {
            planned(
                r,
                WriteView::Keep,
                no_rules(dialogue@.channel),
                Some(MarkupView::RemoveKeyboard),
            )
        } else {
            planned(
                r,
                WriteView::Store(
                    DialogueView {
                        channel: dialogue@.channel,
                        state: StateView::RemoveFilterSelection { filters: filter_views(filters@) },
                    },
                ),
                offered_rules(dialogue@.channel, filter_views(filters@)),
                Some(rule_keyboard(filters@.len())),
            )
        },
{
    if filters.len() == 0 {
        let pieces = say_no_rules(&dialogue.channel);
        return plan(DialogueWrite::Keep, pieces, Some(ReplyMarkup::RemoveKeyboard));
    }
    let mut target = SelectedChannel::chat_selection(&dialogue.channel);
    let ghost target_views = piece_views(target@);
    let mut pieces = vec![Piece::plain(SELECTED)];
    pieces.append(&mut target);
    pieces.push(Piece::plain(CHOOSE));
    assert(piece_views(pieces@) =~= seq![PieceView::plain(SELECTED@)] + target_views + seq![
        PieceView::plain(CHOOSE@),
    ]);
    push_rules(&mut pieces, &filters);
    let buttons = choices(filters.len());
    let markup = keyboard_markup(&buttons);
    let state = RemoveFilterSelection { filters };
    plan(
        DialogueWrite::Store(
            Dialogue {
                channel: dialogue.channel,
                state: DialogueState::RemoveFilterSelection(state),
            },
        ),
        pieces,
        Some(markup),
    )
}

/// What is done about the choice of a rule.
#[derive(Debug, PartialEq, Eq)]
pub enum RemoveStep {
    /// Remove the rule at the index from those of the selected chat, if it is
    /// still this one, and go on with [`rule_removed`].
    Remove { index: usize, filter: Filter },
    Reply(Plan),
}

/// The text that asks to use the buttons.
pub open spec fn use_buttons() -> Seq<char> {
    USE_BUTTONS@ + CommandKind::Cancel.spec_name() + USE_BUTTONS_END@
}

impl RemoveFilterSelection {
    /// Takes up the choice of a rule.
    pub fn handle_message(self, answer: &Answer) -> (r: RemoveStep)
        ensures
            match r {
                RemoveStep::Remove { index, filter } => {
                    &&& index < self.filters@.len()
                    &&& filter == self.filters@[index as int]
                    &&& (ButtonView::Text { text: rule_name(index as int) }).answered_by(*answer)
                    &&& forall|j: int|
                        0 <= j < index ==> !(ButtonView::Text {
                            text: #[trigger] rule_name(j),
                        }).answered_by(*answer)
                },
                RemoveStep::Reply(p) => {
                    &&& forall|j: int|
                        0 <= j < self.filters@.len() ==> !(ButtonView::Text {
                            text: #[trigger] rule_name(j),
                        }).answered_by(*answer)
                    &&& p@ == (PlanView {
                        dialogue: WriteView::Keep,
                        reply: text_reply(
                            use_buttons(),
                            Some(rule_keyboard(self.filters@.len())),
                        ),
                    })
                },
            },
    {
        let n: usize = self.filters.len();
        let buttons = choices(n);
        match match_action(&buttons, answer) {
            Some(i) => {
                assert forall|j: int| 0 <= j < i implies !(ButtonView::Text {
                    text: #[trigger] rule_name(j),
                }).answered_by(*answer) by {
                    assert(buttons@[j].spec_button() == (ButtonView::Text { text: rule_name(j) }));
                }
                let mut filters = self.filters;
                let filter = filters.swap_remove(i);
                RemoveStep::Remove { index: i, filter }
            },
            None => {
                assert forall|j: int| 0 <= j < n implies !(ButtonView::Text {
                    text: #[trigger] rule_name(j),
                }).answered_by(*answer) by {
                    assert(buttons@[j].spec_button() == (ButtonView::Text { text: rule_name(j) }));
                }
                let mut text = USE_BUTTONS.to_owned();
                text.append(CommandKind::Cancel.name());
                text.append(USE_BUTTONS_END);
                let reply = Reply::text(text.as_str(), Some(keyboard_markup(&buttons)));
                RemoveStep::Reply(Plan { dialogue: DialogueWrite::Keep, reply })
            },
        }
    }
}

/// Removes the rule at an index, if it is the given one.
pub fn remove_filter(filters: &mut Vec<Filter>, index: usize, filter: &Filter) -> (removed: bool)
    requires
        index < old(filters)@.len(),
    ensures
        removed == (old(filters)@[index as int]@ == filter@),
        final(filters)@ == (if removed {
            old(filters)@.remove(index as int)
        } else {
            old(filters)@
        }),
{
    if same_filter(&filters[index], filter) {
        filters.remove(index);
        true
    } else {
        false
    }
}

/// Ends the removal of a rule.
pub fn rule_removed(removed: bool, channel: Option<SelectedChannel>) -> (r: Plan)
    ensures
        r@ == (PlanView {
            dialogue: reset_view(opt_channel(channel)),
            reply: text_reply(
                if removed {
                    REMOVED@
                } else {
                    NOT_REMOVED@
                },
                Some(MarkupView::RemoveKeyboard),
            ),
        }),
{
    let text = if removed {
        REMOVED
    } else {
        NOT_REMOVED
    };
    Plan { dialogue: reset(channel), reply: Reply::text(text, Some(ReplyMarkup::RemoveKeyboard)) }
}

/// Removing the rule that was added last gives back the rules before.
pub proof fn law_remove_undoes_add(filters: Seq<Seq<ConditionView>>, filter: Seq<ConditionView>)
    ensures
        filters.push(filter).remove(filters.len() as int) == filters,
{
    assert(filters.push(filter).remove(filters.len() as int) =~= filters);
}

/// Rules at different places have different names, so that a button removes no
/// other rule than the one it names.
pub proof fn law_rule_names_differ(i: int, j: int)
    requires
        0 <= i,
        0 <= j,
        rule_name(i) == rule_name(j),
    ensures
        i == j,
{
    let a = crate::text::decimal((i + 1) as nat);
    let b = crate::text::decimal((j + 1) as nat);
    let n = "Regel "@.len() as int;
    assert(rule_name(i).skip(n) =~= a);
    assert(rule_name(j).skip(n) =~= b);
    crate::text::law_decimal_injective(i + 1, j + 1);
}

/// The button with the name of a rule chooses the rule at its place, and any
/// other answer none, in which case nothing changes.
pub proof fn law_button_chooses_its_rule(
    state: RemoveFilterSelection,
    answer: &Answer,
    r: RemoveStep,
    i: usize,
    name: String,
)
    requires
        call_ensures(RemoveFilterSelection::handle_message, (state, answer), r),
        i < state.filters@.len(),
        i < usize::MAX,
        call_ensures(super::rules::name_of_rule, (i,), name),
    ensures
        answer.text is Some && answer.text->0@ == name@ ==> r == (RemoveStep::Remove {
            index: i,
            filter: state.filters@[i as int],
        }),
        answer.text is None ==> r is Reply,
        answer.text is Some && answer.text->0@ != name@ ==> !(r matches RemoveStep::Remove {
            index,
            ..
        } && index == i),
        r matches RemoveStep::Reply(p) ==> p.dialogue is Keep && p.reply.markup is Some
            && p.reply.markup->0 is Keyboard,
{
    if answer.text is Some && answer.text->0@ == name@ {
        assert((ButtonView::Text { text: rule_name(i as int) }).answered_by(*answer));
        if let RemoveStep::Remove { index, filter } = r {
            law_rule_names_differ(index as int, i as int);
        }
    }
}

/// The rule at a place is removed exactly if it is still the one that was
/// chosen. The others stay as they are.
pub proof fn law_only_chosen_rule_is_removed(
    filters: &mut Vec<Filter>,
    index: usize,
    filter: &Filter,
    removed: bool,
)
    requires
        index < filters@.len(),
        call_ensures(remove_filter, (filters, index, filter), removed),
    ensures
        removed <==> old(filters)@[index as int]@ == filter@,
        removed ==> final(filters)@ == old(filters)@.take(index as int) + old(filters)@.skip(
            index + 1,
        ),
        !removed ==> final(filters)@ == old(filters)@,
{
    if removed {
        assert(old(filters)@.remove(index as int) =~= old(filters)@.take(index as int) + old(
            filters,
        )@.skip(index + 1));
    }
}

/// Where there are rules, all of them can be chosen, and the dialogue waits for
/// the choice. Where there is none, nothing changes.
pub proof fn law_rules_can_be_chosen(
    dialogue: Dialogue,
    filters: Vec<Filter>,
    r: Plan,
    removed: bool,
    channel: Option<SelectedChannel>,
    over: Plan,
)
    requires
        showable(dialogue@.channel),
        call_ensures(handle_command, (dialogue, filters), Ok(r)),
        call_ensures(rule_removed, (removed, channel), over),
    ensures
        filters@.len() == 0 ==> r.dialogue is Keep && r.reply.markup is Some
            && r.reply.markup->0 is RemoveKeyboard,
        filters@.len() > 0 ==> (r.dialogue matches DialogueWrite::Store(d) && opt_channel(d.channel)
            == opt_channel(dialogue.channel) && (d.state matches DialogueState::RemoveFilterSelection(
            s,
        ) && filter_views(s.filters@) == filter_views(filters@))),
        filters@.len() > 0 ==> r.reply.markup is Some && r.reply.markup->0 is Keyboard,
        over.dialogue matches DialogueWrite::Store(d) && d.state is Initial && opt_channel(d.channel)
            == opt_channel(channel),
        over.reply.text@ == (if removed {
            "✅ Die Regel wurde gelöscht!"@
        } else {
            "❌ Die Regel konnte leider nicht gelöscht werden. Bitte versuche es erneut."@
        }),
{
}

/// There is one choice for each rule, numbered from one on.
pub proof fn law_choices_are_numbered(n: usize, r: Vec<RuleChoice>, i: int)
    requires
        call_ensures(choices, (n,), r),
        0 <= i < n,
    ensures
        r@.len() == n,
        r@[i].number == i + 1,
{
}

/// Where there are no rules that is said, for the selected chat. Where there are,
/// they are listed below it.
pub proof fn law_offered_rules_are_shown(
    dialogue: Dialogue,
    filters: Vec<Filter>,
    r: Plan,
    object: Vec<Piece>,
    named: (String, Vec<crate::message_builder::MessageEntity>),
    selected: Vec<Piece>,
    shown: (String, Vec<crate::message_builder::MessageEntity>),
    list: &mut Vec<Piece>,
    full: Vec<Piece>,
    listed: (String, Vec<crate::message_builder::MessageEntity>),
)
    requires
        showable(dialogue@.channel),
        call_ensures(handle_command, (dialogue, filters), Ok(r)),
        call_ensures(SelectedChannel::chat_selection_accusative, (&dialogue.channel,), object),
        call_ensures(crate::rich_text::render, (&object,), Ok(named)),
        call_ensures(SelectedChannel::chat_selection, (&dialogue.channel,), selected),
        call_ensures(crate::rich_text::render, (&selected,), Ok(shown)),
        list@.len() == 0,
        call_ensures(push_rules, (list, &filters), ()),
        full == *final(list),
        call_ensures(crate::rich_text::render, (&full,), Ok(listed)),
    ensures
        filters@.len() == 0 ==> r.reply.text@ == "Zur Zeit sind keine Regeln für "@ + named.0@
            + " aktiv!"@,
        filters@.len() > 0 ==> r.reply.text@ == "Aktuelle Auswahl: "@ + shown.0@
            + "\n\nWähle einen der folgenden Regeln zum Löschen aus:\n\n"@ + listed.0@,
{
    let channel = dialogue@.channel;
    super::help::lemma_text_of_around(
        PieceView::plain(NO_RULES@),
        selection_accusative(channel),
        PieceView::plain(NO_RULES_END@),
    );
    let start = seq![PieceView::plain(SELECTED@)] + selection(channel) + seq![
        PieceView::plain(CHOOSE@),
    ];
    super::help::lemma_text_of_around(
        PieceView::plain(SELECTED@),
        selection(channel),
        PieceView::plain(CHOOSE@),
    );
    super::help::lemma_text_of_concat(start, rule_list(filter_views(filters@)));
    assert(piece_views(old(list)@) =~= Seq::<PieceView>::empty());
    assert(piece_views(full@) =~= rule_list(filter_views(filters@)));
}

/// An answer that is no choice is told how to go on, or how to stop.
pub proof fn law_wrong_choice_is_explained(
    state: RemoveFilterSelection,
    answer: &Answer,
    p: Plan,
    name: &'static str,
)
    requires
        call_ensures(
            RemoveFilterSelection::handle_message,
            (state, answer),
            RemoveStep::Reply(p),
        ),
        call_ensures(CommandKind::name, (&CommandKind::Cancel,), name),
    ensures
        p.reply.text@ == "Bitte nutze die Schaltflächen, um einen Regel auszuwählen, oder sende /"@
            + name@ + " zum Abbrechen"@,
{
}

/// There is a button for each of the rules, which says the name of the rule,
/// wherever a rule can be chosen.
pub proof fn law_all_rules_are_offered(
    dialogue: Dialogue,
    filters: Vec<Filter>,
    r: Plan,
    state: RemoveFilterSelection,
    answer: &Answer,
    again: Plan,
    buttons: Vec<RuleChoice>,
    offered: ReplyMarkup,
    i: usize,
    b: Button,
    name: String,
)
    requires
        showable(dialogue@.channel),
        filters@.len() > 0,
        call_ensures(handle_command, (dialogue, filters), Ok(r)),
        state.filters@.len() == filters@.len(),
        call_ensures(
            RemoveFilterSelection::handle_message,
            (state, answer),
            RemoveStep::Reply(again),
        ),
        filters@.len() <= usize::MAX,
        call_ensures(choices, (filters@.len() as usize,), buttons),
        call_ensures(keyboard_markup::<RuleChoice>, (&buttons,), offered),
        i < filters@.len(),
        i < usize::MAX,
        call_ensures(RuleChoice::button, (&buttons@[i as int],), b),
        call_ensures(super::rules::name_of_rule, (i,), name),
    ensures
        r.reply.markup is Some && r.reply.markup->0@ == offered@,
        again.reply.markup is Some && again.reply.markup->0@ == offered@,
        b matches Button::Text { text } && text@ == name@,
{
}

} // verus!
