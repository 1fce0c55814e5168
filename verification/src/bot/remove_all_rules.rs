//! Removes all rules of a chat, after asking whether that is meant.

use vstd::prelude::*;
use vstd::string::*;

use super::remove_rule::say_no_rules;
use super::{plan, reset, Dialogue, DialogueState, DialogueWrite, Plan, Reply};
use crate::channel::SelectedChannel;
use crate::keyboard::{keyboard_markup, match_action, Answer, Button, Choice, ReplyMarkup};
use crate::message_builder::Error as MessageError;
use crate::rich_text::Piece;

verus! {

use super::remove_rule::no_rules;
use super::{planned, reset_view, text_reply, DialogueView, PlanView, StateView, WriteView};
use crate::channel::{opt_channel, selection_accusative, showable, ChannelView};
use crate::keyboard::{choice_buttons, rows_of, ButtonView, MarkupView};
use crate::rich_text::{piece_views, PieceView};
use crate::text::opt_string;

pub const YES: &'static str = "⚠\u{fe0f} Ja, alles löschen!";

pub const NO: &'static str = "Abbrechen";

pub const ABOUT_TO: &'static str = "🗑\u{fe0f} Du bist dabei, alle Regeln für ";

pub const ARE_YOU_SURE: &'static str =
    " zu entfernen.\n\nBist du sicher? Danach bekommst du erst mal keine Benachrichtigungen mehr.";

pub const REMOVED: &'static str = "✅ Deine Regeln wurden gelöscht!";

pub const NOT_REMOVED: &'static str =
    "❌ Die Regeln konnten leider nicht gelöscht werden. Bitte versuche es erneut.";

pub const ABORTED: &'static str = "Der Vorgang wurde abgebrochen!";

/// The bot waits for a confirmation.
#[derive(Debug, Clone, Copy, PartialEq, Eq, Structural)]
pub struct ConfirmRemoveAllFilters;

/// Yes or no.
#[derive(Debug, Clone, Copy, PartialEq, Eq, Structural)]
pub struct ConfirmChoice(pub bool);

impl Choice for ConfirmChoice {
    open spec fn spec_button(&self) -> ButtonView {
        ButtonView::Text {
            text: if self.0 {
                YES@
            } else {
                NO@
            },
        }
    }

    fn button(&self) -> Button {
        let text = if self.0 {
            YES
        } else {
            NO
        };
        Button::Text { text: text.to_owned() }
    }
}

/// The two choices.
pub open spec fn confirm_choices() -> Seq<ConfirmChoice> {
    seq![ConfirmChoice(true), ConfirmChoice(false)]
}

fn buttons() -> (r: Vec<ConfirmChoice>)
    ensures
        r@ == confirm_choices(),
{
    let r = vec![ConfirmChoice(true), ConfirmChoice(false)];
    assert(r@ =~= confirm_choices());
    r
}

/// What is shown before all rules are removed.
pub open spec fn question(channel: Option<ChannelView>) -> Seq<PieceView> {
    seq![PieceView::plain(ABOUT_TO@)] + selection_accusative(channel) + seq![
        PieceView::plain(ARE_YOU_SURE@),
    ]
}

/// Asks whether all rules are to be removed, if there are any.
pub fn handle_command(dialogue: Dialogue, has_rules: bool) -> (r: Result<Plan, MessageError>)
    requires
        showable(dialogue@.channel),
    ensures
        if has_rules {
            planned(
                r,
                WriteView::Store(
                    DialogueView {
                        channel: dialogue@.channel,
                        state: StateView::ConfirmRemoveAllFilters,
                    },
                ),
                question(dialogue@.channel),
                Some(MarkupView::keyboard(rows_of(choice_buttons(confirm_choices())))),
            )
        } else {
            planned(
                r,
                WriteView::Keep,
                no_rules(dialogue@.channel),
                Some(MarkupView::RemoveKeyboard),
            )
        },
{
    if !has_rules {
        let pieces = say_no_rules(&dialogue.channel);
        return plan(DialogueWrite::Keep, pieces, Some(ReplyMarkup::RemoveKeyboard));
    }
    let mut target = SelectedChannel::chat_selection_accusative(&dialogue.channel);
    let ghost target_views = piece_views(target@);
    let mut pieces = vec![Piece::plain(ABOUT_TO)];
    pieces.append(&mut target);
    pieces.push(Piece::plain(ARE_YOU_SURE));
    assert(piece_views(pieces@) =~= question(dialogue@.channel));
    let choices = buttons();
    plan(
        DialogueWrite::Store(
            Dialogue {
                channel: dialogue.channel,
                state: DialogueState::ConfirmRemoveAllFilters(ConfirmRemoveAllFilters),
            },
        ),
        pieces,
        Some(keyboard_markup(&choices)),
    )
}

impl ConfirmRemoveAllFilters {
    /// Whether the answer confirms. Anything else means no.
    pub fn confirmed(&self, answer: &Answer) -> (r: bool)
        ensures
            r == (opt_string(answer.text) == Some(YES@)),
    {
        let choices = buttons();
        match match_action(&choices, answer) {
            Some(i) => {
                proof {
                    assert(choices@[0].spec_button() == (ButtonView::Text { text: YES@ }));
                    assert(choices@[1].spec_button() == (ButtonView::Text { text: NO@ }));
                    reveal_strlit("⚠\u{fe0f} Ja, alles löschen!");
                    reveal_strlit("Abbrechen");
                    assert(YES@[0] != NO@[0]);
                }
                choices[i].0
            },
            None => {
                assert(choices@[0].spec_button() == (ButtonView::Text { text: YES@ }));
                false
            },
        }
    }
}

/// Ends the removal of all rules. Where no channel is selected there is nothing
/// left to remember.
pub fn rules_removed(removed: bool, channel: Option<SelectedChannel>) -> (r: Plan)
    ensures
        r@ == (PlanView {
            dialogue: if channel is None {
                WriteView::Remove
            } else {
                reset_view(opt_channel(channel))
            },
            reply: text_reply(
                if removed {
                    REMOVED@
                } else {
                    NOT_REMOVED@
                },
                Some(MarkupView::RemoveKeyboard),
            ),
        }),
{
    let text = if removed {
        REMOVED
    } else {
        NOT_REMOVED
    };
    let dialogue = if channel.is_none() {
        DialogueWrite::Remove
    } else {
        reset(channel)
    };
    Plan { dialogue, reply: Reply::text(text, Some(ReplyMarkup::RemoveKeyboard)) }
}

/// Ends without removing anything.
pub fn aborted(channel: Option<SelectedChannel>) -> (r: Plan)
    ensures
        r@ == (PlanView {
            dialogue: reset_view(opt_channel(channel)),
            reply: text_reply(ABORTED@, Some(MarkupView::RemoveKeyboard)),
        }),
{
    Plan {
        dialogue: reset(channel),
        reply: Reply::text(ABORTED, Some(ReplyMarkup::RemoveKeyboard)),
    }
}

/// Only the one button confirms. Any other answer, and none, means no.
pub proof fn law_only_yes_confirms(state: &ConfirmRemoveAllFilters, answer: &Answer, r: bool)
    requires
        call_ensures(ConfirmRemoveAllFilters::confirmed, (state, answer), r),
    ensures
        r <==> answer.text is Some && answer.text->0@ == "⚠\u{fe0f} Ja, alles löschen!"@,
{
}

/// Before rules are removed, the user is asked, if there are any. A selected
/// channel stays selected throughout; only where there is none, and the rules
/// are gone, nothing is remembered.
pub proof fn law_channel_stays_selected(
    dialogue: Dialogue,
    has_rules: bool,
    r: Plan,
    removed: bool,
    channel: Option<SelectedChannel>,
    over: Plan,
    left: Plan,
)
    requires
        showable(dialogue@.channel),
        call_ensures(handle_command, (dialogue, has_rules), Ok(r)),
        call_ensures(rules_removed, (removed, channel), over),
        call_ensures(aborted, (channel,), left),
    ensures
        !has_rules ==> r.dialogue is Keep,
        has_rules ==> (r.dialogue matches DialogueWrite::Store(d) && opt_channel(d.channel)
            == opt_channel(dialogue.channel) && d.state is ConfirmRemoveAllFilters),
        has_rules ==> r.reply.markup is Some && r.reply.markup->0 is Keyboard,
        over.dialogue is Remove <==> channel is None,
        channel is Some ==> (over.dialogue matches DialogueWrite::Store(d) && opt_channel(d.channel)
            == opt_channel(channel) && d.state is Initial),
        left.dialogue matches DialogueWrite::Store(d) && opt_channel(d.channel) == opt_channel(
            channel,
        ) && d.state is Initial,
        over.reply.text@ == (if removed {
            "✅ Deine Regeln wurden gelöscht!"@
        } else {
            "❌ Die Regeln konnten leider nicht gelöscht werden. Bitte versuche es erneut."@
        }),
{
}

/// The question names the chat whose rules would be removed.
pub proof fn law_question_names_the_chat(
    dialogue: Dialogue,
    has_rules: bool,
    r: Plan,
    object: Vec<Piece>,
    named: (String, Vec<crate::message_builder::MessageEntity>),
)
    requires
        showable(dialogue@.channel),
        call_ensures(handle_command, (dialogue, has_rules), Ok(r)),
        call_ensures(SelectedChannel::chat_selection_accusative, (&dialogue.channel,), object),
        call_ensures(crate::rich_text::render, (&object,), Ok(named)),
    ensures
        has_rules ==> r.reply.text@ == "🗑\u{fe0f} Du bist dabei, alle Regeln für "@ + named.0@
            + " zu entfernen.\n\nBist du sicher? Danach bekommst du erst mal keine Benachrichtigungen mehr."@,
        !has_rules ==> r.reply.text@ == "Zur Zeit sind keine Regeln für "@ + named.0@ + " aktiv!"@,
{
    super::help::lemma_text_of_around(
        PieceView::plain(ABOUT_TO@),
        selection_accusative(dialogue@.channel),
        PieceView::plain(ARE_YOU_SURE@),
    );
    super::help::lemma_text_of_around(
        PieceView::plain(super::remove_rule::NO_RULES@),
        selection_accusative(dialogue@.channel),
        PieceView::plain(super::remove_rule::NO_RULES_END@),
    );
}

/// The question has two answers, one of which confirms.
pub proof fn law_question_has_two_answers(
    dialogue: Dialogue,
    r: Plan,
    both: Vec<ConfirmChoice>,
    offered: ReplyMarkup,
    yes: Button,
    no: Button,
)
    requires
        showable(dialogue@.channel),
        call_ensures(handle_command, (dialogue, true), Ok(r)),
        both@ == seq![ConfirmChoice(true), ConfirmChoice(false)],
        call_ensures(keyboard_markup::<ConfirmChoice>, (&both,), offered),
        call_ensures(ConfirmChoice::button, (&ConfirmChoice(true),), yes),
        call_ensures(ConfirmChoice::button, (&ConfirmChoice(false),), no),
    ensures
        r.reply.markup is Some && r.reply.markup->0@ == offered@,
        yes matches Button::Text { text } && text@ == "⚠\u{fe0f} Ja, alles löschen!"@,
        no matches Button::Text { text } && text@ == "Abbrechen"@,
{
}

} // verus!
