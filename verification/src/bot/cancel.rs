//! Ends what the bot is waiting for, and shows the privacy notice.

use vstd::prelude::*;
use vstd::string::*;

use super::{reset, Dialogue, DialogueState, DialogueWrite, Plan, Reply};
use crate::keyboard::ReplyMarkup;

verus! {

use super::{reset_view, text_reply, DialogueView, PlanView, WriteView};
use crate::keyboard::MarkupView;
use crate::text::opt_text;

pub const CANCELLED: &'static str = "Befehl wurde abgebrochen!";

pub const NOTHING_TO_CANCEL: &'static str = "Es war kein Befehl aktiv";

pub const PRIVACY_CONTACT: &'static str =
    "\nBei Fragen kontaktiere mich direkt über Telegram: @";

/// What becomes of a dialogue that is cancelled.
pub open spec fn cancelled(dialogue: DialogueView) -> PlanView {
    if dialogue.state is Initial {
        PlanView {
            dialogue: WriteView::Keep,
            reply: text_reply(NOTHING_TO_CANCEL@, Some(MarkupView::RemoveKeyboard)),
        }
    } else {
        PlanView {
            dialogue: reset_view(dialogue.channel),
            reply: text_reply(CANCELLED@, Some(MarkupView::RemoveKeyboard)),
        }
    }
}

/// Puts the dialogue back to its start, if it is not there. The selected
/// channel stays selected.
pub fn handle_command(dialogue: Dialogue) -> (r: Plan)
    ensures
        r@ == cancelled(dialogue@),
{
    match dialogue.state {
        DialogueState::Initial => Plan {
            dialogue: DialogueWrite::Keep,
            reply: Reply::text(NOTHING_TO_CANCEL, Some(ReplyMarkup::RemoveKeyboard)),
        },
        _ => Plan {
            dialogue: reset(dialogue.channel),
            reply: Reply::text(CANCELLED, Some(ReplyMarkup::RemoveKeyboard)),
        },
    }
}

/// The privacy notice, with the contact if there is one.
pub fn privacy_text(notice: &str, owner: Option<&str>) -> (s: String)
    ensures
        s@ == match opt_text(owner) {
            Some(owner) => notice@ + PRIVACY_CONTACT@ + owner,
            None => notice@,
        },
{
    let mut s = notice.to_owned();
    if let Some(owner) = owner {
        s.append(PRIVACY_CONTACT);
        s.append(owner);
    }
    s
}

/// Cancelling ends what the bot is waiting for, and keeps the selected channel.
/// If the bot waits for nothing, nothing changes.
pub proof fn law_cancelling_keeps_the_channel(dialogue: Dialogue, r: Plan)
    requires
        call_ensures(handle_command, (dialogue,), r),
    ensures
        dialogue.state is Initial ==> r.dialogue is Keep && r.reply.text@
            == "Es war kein Befehl aktiv"@,
        !(dialogue.state is Initial) ==> (r.dialogue matches DialogueWrite::Store(d)
            && d.state is Initial && crate::channel::opt_channel(d.channel)
            == crate::channel::opt_channel(dialogue.channel)) && r.reply.text@
            == "Befehl wurde abgebrochen!"@,
        r.reply.markup is Some && r.reply.markup->0 is RemoveKeyboard,
{
}

/// The privacy notice is shown as it is. Whom to ask is added, if that is known.
pub proof fn law_contact_is_added(notice: &str, owner: &str, s: String, with_owner: String)
    requires
        call_ensures(privacy_text, (notice, None), s),
        call_ensures(privacy_text, (notice, Some(owner)), with_owner),
    ensures
        s@ == notice@,
        with_owner@ == s@ + "\nBei Fragen kontaktiere mich direkt über Telegram: @"@ + owner@,
{
}

} // verus!
