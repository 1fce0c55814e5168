//! Selects the chat that is configured: this one, or a channel.

use vstd::prelude::*;
use vstd::string::*;

use super::{reset, CommandKind, Dialogue, DialogueState, DialogueWrite, HandlerError, Reply};
use crate::channel::SelectedChannel;
use crate::keyboard::{keyboard_markup, match_action, Answer, Button, Choice, ReplyMarkup};
use crate::rich_text::Piece;
use crate::types::ChatId;

verus! {

use super::{
    opt_markup, reply_of, reset_view, text_reply, DialogueView, ReplyView, StateView, WriteView,
};
use crate::channel::{selection, showable, ChannelView};
use crate::keyboard::{choice_buttons, first_answered, rows_of, ButtonView, MarkupView};
use crate::rich_text::{fits, piece_views, PieceView};

pub const PRIVATE_ONLY: &'static str = "Dieser Befehl wird nur in privaten Chats unterstützt!";

pub const THIS_CHAT: &'static str = "Dieser Chat";

pub const CHOOSE_CHANNEL: &'static str = "Channel auswählen";

pub const SELECTED: &'static str = "Aktuelle Auswahl: ";

pub const SWITCH_BACK: &'static str =
    "\n\nDu kannst zu diesem privaten Chat zurückwechseln oder einen anderen Kanal wählen:";

pub const CHOOSE_INSTEAD: &'static str =
    "\n\nDu kannst stattdessen auch einen Kanal auswählen:";

pub const USE_BUTTONS: &'static str =
    "\u{fe0f}Bitte verwende die Schaltflächen, um einen Chat auszuwählen, oder sende /";

pub const USE_BUTTONS_END: &'static str = " zum Abbrechen";

pub const CHANNEL_CHOSEN: &'static str = "✅ Der Kanal ";

pub const CHANNEL_CHOSEN_MIDDLE: &'static str =
    " wurde ausgewählt!\n\nDu kannst nun die Einstellungen für diesen Channel ändern. Führe /";

pub const CHANNEL_CHOSEN_END: &'static str =
    " erneut aus, um die Auswahl zu ändern oder zurückzusetzen.";

pub const SWITCHED_BACK: &'static str =
    "✅ Du kannst nun wieder Einstellungen für diesen privaten Chat vornehmen.";

/// What can be chosen.
#[derive(Debug, Clone, Copy, PartialEq, Eq, Structural)]
pub enum Alternatives {
    PrivateChat,
    RequestChannel(i32),
}

impl Choice for Alternatives {
    open spec fn spec_button(&self) -> ButtonView {
        match self {
            Alternatives::PrivateChat => ButtonView::Text { text: THIS_CHAT@ },
            Alternatives::RequestChannel(request_id) => ButtonView::RequestChat {
                text: CHOOSE_CHANNEL@,
                request_id: *request_id,
            },
        }
    }

    fn button(&self) -> Button {
        match self {
            Alternatives::PrivateChat => Button::Text { text: THIS_CHAT.to_owned() },
            Alternatives::RequestChannel(request_id) => Button::RequestChat {
                text: CHOOSE_CHANNEL.to_owned(),
                request_id: *request_id,
            },
        }
    }
}

/// The bot waits for the choice of a chat.
#[derive(Debug, PartialEq, Eq)]
pub struct ChannelSelection {
    pub buttons: Vec<Alternatives>,
}

/// What can be chosen: a channel, and this chat if another one is selected.
pub open spec fn alternatives(request_id: i32, with_reset: bool) -> Seq<Alternatives> {
    if with_reset {
        seq![Alternatives::PrivateChat, Alternatives::RequestChannel(request_id)]
    } else {
        seq![Alternatives::RequestChannel(request_id)]
    }
}

/// The text that asks to use the buttons.
pub open spec fn use_buttons() -> Seq<char> {
    USE_BUTTONS@ + CommandKind::Cancel.spec_name() + USE_BUTTONS_END@
}

/// What is shown when a channel was chosen.
pub open spec fn channel_chosen(channel: ChannelView) -> Seq<PieceView> {
    seq![
        PieceView::plain(CHANNEL_CHOSEN@),
        channel.hyperlink(),
        PieceView::plain(
            CHANNEL_CHOSEN_MIDDLE@ + CommandKind::Target.spec_name() + CHANNEL_CHOSEN_END@,
        ),
    ]
}

/// The channel that an answer shares can be linked to.
pub open spec fn shared_linkable(answer: Answer) -> bool {
    match answer.chat_shared {
        Some(shared) => shared.spec_channel().linkable(),
        None => true,
    }
}

/// What is done about a message: first the dialogue is written, then the reply
/// is sent. Telegram refuses a reply that is too long, but the dialogue is
/// written then, too.
#[derive(Debug, PartialEq, Eq)]
pub struct Step {
    pub dialogue: DialogueWrite,
    pub reply: Result<Reply, HandlerError>,
}

/// The dialogue is written, and the reply is the given one.
pub open spec fn replied(s: Step, dialogue: WriteView, reply: ReplyView) -> bool {
    s.dialogue@ == dialogue && (s.reply matches Ok(r) && r@ == reply)
}

/// The dialogue is written, and the reply is made of pieces, if Telegram accepts
/// it.
pub open spec fn stepped(
    s: Step,
    dialogue: WriteView,
    pieces: Seq<PieceView>,
    markup: Option<MarkupView>,
) -> bool {
    s.dialogue@ == dialogue && match s.reply {
        Ok(reply) => fits(pieces) && reply@ == reply_of(pieces, markup),
        Err(e) => !fits(pieces) && e is Telegram,
    }
}

/// Writes the dialogue and replies with pieces.
fn step(dialogue: DialogueWrite, pieces: Vec<Piece>, markup: Option<ReplyMarkup>) -> (r: Step)
    ensures
        stepped(r, dialogue@, piece_views(pieces@), opt_markup(markup)),
{
    let reply = match Reply::of(pieces, markup) {
        Ok(reply) => Ok(reply),
        Err(_) => Err(HandlerError::Telegram),
    };
    Step { dialogue, reply }
}

impl ChannelSelection {
    /// Offers a channel, and this chat if another one is selected.
    pub fn new(request_id: i32, with_reset: bool) -> (r: Self)
        ensures
            r.buttons@ == alternatives(request_id, with_reset),
    {
        let mut buttons: Vec<Alternatives> = Vec::new();
        if with_reset {
            buttons.push(Alternatives::PrivateChat);
        }
        buttons.push(Alternatives::RequestChannel(request_id));
        assert(buttons@ =~= alternatives(request_id, with_reset));
        ChannelSelection { buttons }
    }

    /// Takes up the choice of a chat.
    pub fn handle_message(self, answer: &Answer) -> (r: Result<Step, HandlerError>)
        requires
            shared_linkable(*answer),
        ensures
            match first_answered(self.buttons@, *answer) {
                Some(Alternatives::RequestChannel(_)) => match (r, answer.chat_shared) {
                    (Ok(s), Some(shared)) => stepped(
                        s,
                        reset_view(Some(shared.spec_channel())),
                        channel_chosen(shared.spec_channel()),
                        Some(MarkupView::RemoveKeyboard),
                    ),
                    _ => false,
                },
                Some(Alternatives::PrivateChat) => r matches Ok(s) && replied(
                    s,
                    reset_view(None),
                    text_reply(SWITCHED_BACK@, Some(MarkupView::RemoveKeyboard)),
                ),
                None => match r {
                    Ok(s) => answer.text is Some && replied(
                        s,
                        WriteView::Keep,
                        text_reply(
                            use_buttons(),
                            Some(MarkupView::keyboard(rows_of(choice_buttons(self.buttons@)))),
                        ),
                    ),
                    Err(e) => answer.text is None && e is UnexpectedMessage,
                },
            },
    {
        match match_action(&self.buttons, answer) {
            Some(i) => match self.buttons[i] {
                Alternatives::RequestChannel(_) => match &answer.chat_shared {
                    Some(shared) => Ok(Self::handle_chat_shared(shared.channel())),
                    None => Err(HandlerError::UnexpectedMessage),
                },
                Alternatives::PrivateChat => Ok(
                    Step {
                        dialogue: reset(None),
                        reply: Ok(Reply::text(SWITCHED_BACK, Some(ReplyMarkup::RemoveKeyboard))),
                    },
                ),
            },
            None => {
                if answer.text.is_none() {
                    return Err(HandlerError::UnexpectedMessage);
                }
                let mut text = USE_BUTTONS.to_owned();
                text.append(CommandKind::Cancel.name());
                text.append(USE_BUTTONS_END);
                let reply = Reply::text(text.as_str(), Some(keyboard_markup(&self.buttons)));
                Ok(Step { dialogue: DialogueWrite::Keep, reply: Ok(reply) })
            },
        }
    }

    /// Takes up that a channel was chosen.
    fn handle_chat_shared(channel: SelectedChannel) -> (r: Step)
        requires
            channel@.linkable(),
        ensures
            stepped(
                r,
                reset_view(Some(channel@)),
                channel_chosen(channel@),
                Some(MarkupView::RemoveKeyboard),
            ),
    {
        let mut text = CHANNEL_CHOSEN_MIDDLE.to_owned();
        text.append(CommandKind::Target.name());
        text.append(CHANNEL_CHOSEN_END);
        let pieces = vec![
            Piece::plain(CHANNEL_CHOSEN),
            channel.hyperlink(),
            Piece::plain(text.as_str()),
        ];
        assert(piece_views(pieces@) =~= channel_chosen(channel@));
        step(reset(Some(channel)), pieces, Some(ReplyMarkup::RemoveKeyboard))
    }
}

/// What is shown for the choice of a chat.
pub open spec fn offered(channel: Option<ChannelView>) -> Seq<PieceView> {
    seq![PieceView::plain(SELECTED@)] + selection(channel) + seq![
        PieceView::plain(
            if channel is Some {
                SWITCH_BACK@
            } else {
                CHOOSE_INSTEAD@
            },
        ),
    ]
}

/// Lets the user choose the chat that is configured. That can be done in
/// private chats only.
pub fn handle_command(chat_id: ChatId, message_id: i32, dialogue: Dialogue) -> (r: Step)
    requires
        showable(dialogue@.channel),
    ensures
        if chat_id < 0 {
            replied(r, WriteView::Keep, text_reply(PRIVATE_ONLY@, None))
        } else {
            let buttons = alternatives(message_id, dialogue@.channel is Some);
            stepped(
                r,
                WriteView::Store(
                    DialogueView {
                        channel: dialogue@.channel,
                        state: StateView::ChannelSelection { buttons },
                    },
                ),
                offered(dialogue@.channel),
                Some(MarkupView::keyboard(rows_of(choice_buttons(buttons)))),
            )
        },
{
    if chat_id < 0 {
        return Step { dialogue: DialogueWrite::Keep, reply: Ok(Reply::text(PRIVATE_ONLY, None)) };
    }
    let state = ChannelSelection::new(message_id, dialogue.channel.is_some());
    let markup = keyboard_markup(&state.buttons);
    let mut target = SelectedChannel::chat_selection(&dialogue.channel);
    let ghost target_views = piece_views(target@);
    let mut pieces = vec![Piece::plain(SELECTED)];
    pieces.append(&mut target);
    pieces.push(Piece::plain(if dialogue.channel.is_some() { SWITCH_BACK } else { CHOOSE_INSTEAD }));
    assert(piece_views(pieces@) =~= offered(dialogue@.channel));
    step(
        DialogueWrite::Store(
            Dialogue { channel: dialogue.channel, state: DialogueState::ChannelSelection(state) },
        ),
        pieces,
        Some(markup),
    )
}

/// A channel can always be chosen, for the request. This chat can be chosen
/// exactly if another one is selected.
pub proof fn law_what_can_be_chosen(request_id: i32, with_reset: bool, r: ChannelSelection)
    requires
        call_ensures(ChannelSelection::new, (request_id, with_reset), r),
    ensures
        r.buttons@.contains(Alternatives::RequestChannel(request_id)),
        r.buttons@.contains(Alternatives::PrivateChat) <==> with_reset,
        r.buttons@.len() == (if with_reset {
            2int
        } else {
            1
        }),
{
    assert(r.buttons@.last() == Alternatives::RequestChannel(request_id));
    if with_reset {
        assert(r.buttons@[0] == Alternatives::PrivateChat);
    }
}

/// The channel that was shared for the request is selected, with its identifier,
/// name and title. The button for this chat, where there is one, ends the
/// selection of a channel. Any other text changes nothing.
pub proof fn law_shared_channel_is_selected(
    request_id: i32,
    with_reset: bool,
    state: ChannelSelection,
    answer: &Answer,
    r: Result<Step, HandlerError>,
)
    requires
        call_ensures(ChannelSelection::new, (request_id, with_reset), state),
        crate::channel::showable(
            match answer.chat_shared {
                Some(shared) => Some(shared.spec_channel()),
                None => None,
            },
        ),
        call_ensures(ChannelSelection::handle_message, (state, answer), r),
    ensures
        ({
            let back = with_reset && answer.text is Some && answer.text->0@ == "Dieser Chat"@;
            let shared = answer.chat_shared is Some && answer.chat_shared->0.request_id
                == request_id;
            &&& back ==> (r matches Ok(s) && (s.dialogue matches DialogueWrite::Store(d)
                && d.channel is None && d.state is Initial))
            &&& shared && !back ==> (r matches Ok(s) && (s.dialogue matches DialogueWrite::Store(d)
                && d.state is Initial && (d.channel matches Some(c) && c.chat_id
                == answer.chat_shared->0.chat_id && crate::text::opt_string(c.title)
                == crate::text::opt_string(answer.chat_shared->0.title) && crate::text::opt_string(
                c.username,
            ) == crate::text::opt_string(answer.chat_shared->0.username))))
            &&& !shared && !back && answer.text is Some ==> (r matches Ok(s)
                && s.dialogue is Keep && s.reply is Ok)
            &&& !shared && !back && answer.text is None ==> (r matches Err(e)
                && e is UnexpectedMessage)
        }),
{
    let buttons = alternatives(request_id, with_reset);
    assert(state.buttons@ == buttons);
    let back = with_reset && answer.text is Some && answer.text->0@ == "Dieser Chat"@;
    let shared = answer.chat_shared is Some && answer.chat_shared->0.request_id == request_id;
    assert(Alternatives::PrivateChat.spec_button().answered_by(*answer) <==> (answer.text is Some
        && answer.text->0@ == "Dieser Chat"@));
    assert(Alternatives::RequestChannel(request_id).spec_button().answered_by(*answer) <==> shared);
    let i: int = if back {
        0
    } else if shared {
        buttons.len() - 1
    } else {
        buttons.len() as int
    };
    assert forall|j: int| 0 <= j < i implies !(#[trigger] buttons[j]).spec_button().answered_by(
        *answer,
    ) by {}
    crate::keyboard::lemma_first_answered(buttons, *answer, i);
}

/// The chat that is configured can be chosen in private chats only. The choice
/// that is made before stays until another one is made.
pub proof fn law_target_is_for_private_chats(
    chat_id: ChatId,
    message_id: i32,
    dialogue: Dialogue,
    r: Step,
    offered: ChannelSelection,
)
    requires
        showable(dialogue@.channel),
        call_ensures(handle_command, (chat_id, message_id, dialogue), r),
        call_ensures(
            ChannelSelection::new,
            (message_id, dialogue.channel is Some),
            offered,
        ),
    ensures
        chat_id < 0 ==> r.dialogue is Keep && r.reply is Ok && r.reply->Ok_0.text@
            == "Dieser Befehl wird nur in privaten Chats unterstützt!"@,
        chat_id >= 0 ==> (r.dialogue matches DialogueWrite::Store(d) && crate::channel::opt_channel(
            d.channel,
        ) == crate::channel::opt_channel(dialogue.channel)
            && (d.state matches DialogueState::ChannelSelection(s) && s.buttons@
            == offered.buttons@)),
        chat_id >= 0 && r.reply is Ok ==> r.reply->Ok_0.markup is Some
            && r.reply->Ok_0.markup->0 is Keyboard,
{
}

/// What is offered shows the chat that is selected. Once a channel was chosen,
/// it is named, and how to choose another one.
pub proof fn law_selection_is_named(
    chat_id: ChatId,
    message_id: i32,
    dialogue: Dialogue,
    r: Step,
    selected: Vec<Piece>,
    shown: (String, Vec<crate::message_builder::MessageEntity>),
)
    requires
        showable(dialogue@.channel),
        chat_id >= 0,
        call_ensures(handle_command, (chat_id, message_id, dialogue), r),
        r.reply is Ok,
        call_ensures(SelectedChannel::chat_selection, (&dialogue.channel,), selected),
        call_ensures(crate::rich_text::render, (&selected,), Ok(shown)),
    ensures
        r.reply->Ok_0.text@ == "Aktuelle Auswahl: "@ + shown.0@ + (if dialogue.channel is Some {
            "\n\nDu kannst zu diesem privaten Chat zurückwechseln oder einen anderen Kanal wählen:"@
        } else {
            "\n\nDu kannst stattdessen auch einen Kanal auswählen:"@
        }),
{
    let channel = dialogue@.channel;
    super::help::lemma_text_of_around(
        PieceView::plain(SELECTED@),
        selection(channel),
        PieceView::plain(
            if channel is Some {
                SWITCH_BACK@
            } else {
                CHOOSE_INSTEAD@
            },
        ),
    );
}

/// A channel that was chosen is named in the reply.
pub proof fn law_chosen_channel_is_named(
    state: ChannelSelection,
    answer: &Answer,
    s: Step,
    shared: crate::keyboard::ChatShared,
    channel: SelectedChannel,
    link: Piece,
    name: &'static str,
)
    requires
        answer.chat_shared == Some(shared),
        shared.spec_channel().linkable(),
        answer.text is None,
        state.buttons@.len() > 0,
        forall|i: int|
            0 <= i < state.buttons@.len() ==> #[trigger] state.buttons@[i]
                == Alternatives::RequestChannel(shared.request_id),
        call_ensures(ChannelSelection::handle_message, (state, answer), Ok(s)),
        s.reply is Ok,
        call_ensures(crate::keyboard::ChatShared::channel, (&shared,), channel),
        call_ensures(SelectedChannel::hyperlink, (&channel,), link),
        call_ensures(CommandKind::name, (&CommandKind::Target,), name),
    ensures
        s.reply->Ok_0.text@ == "✅ Der Kanal "@ + link.text@
            + " wurde ausgewählt!\n\nDu kannst nun die Einstellungen für diesen Channel ändern. Führe /"@
            + name@ + " erneut aus, um die Auswahl zu ändern oder zurückzusetzen."@,
{
    assert(state.buttons@[0] == Alternatives::RequestChannel(shared.request_id));
    crate::keyboard::lemma_first_answered(state.buttons@, *answer, 0);
    let pieces = channel_chosen(shared.spec_channel());
    let last = PieceView::plain(
        CHANNEL_CHOSEN_MIDDLE@ + CommandKind::Target.spec_name() + CHANNEL_CHOSEN_END@,
    );
    let middle = seq![shared.spec_channel().hyperlink()];
    assert(pieces =~= seq![PieceView::plain(CHANNEL_CHOSEN@)] + middle + seq![last]);
    super::help::lemma_text_of_around(PieceView::plain(CHANNEL_CHOSEN@), middle, last);
    super::help::lemma_text_of_around(middle[0], Seq::empty(), last);
    assert(s.reply->Ok_0.text@ =~= "✅ Der Kanal "@ + link.text@
        + " wurde ausgewählt!\n\nDu kannst nun die Einstellungen für diesen Channel ändern. Führe /"@
        + name@ + " erneut aus, um die Auswahl zu ändern oder zurückzusetzen."@);
}

/// A reply that is too long counts as refused by Telegram, and the dialogue is
/// written nevertheless.
pub proof fn law_long_replies_are_refused(
    chat_id: ChatId,
    message_id: i32,
    dialogue: Dialogue,
    r: Step,
)
    requires
        showable(dialogue@.channel),
        call_ensures(handle_command, (chat_id, message_id, dialogue), r),
        r.reply is Err,
    ensures
        r.reply->Err_0 is Telegram,
        chat_id >= 0,
        r.dialogue is Store,
{
}

/// What can be chosen is what the keyboard offers: a channel, for the request,
/// and this chat where another one is selected.
pub proof fn law_alternatives_are_offered(
    chat_id: ChatId,
    message_id: i32,
    dialogue: Dialogue,
    r: Step,
    state: ChannelSelection,
    offered: ReplyMarkup,
    answer: &Answer,
    again: Step,
    here: Button,
    channel: Button,
)
    requires
        showable(dialogue@.channel),
        chat_id >= 0,
        call_ensures(handle_command, (chat_id, message_id, dialogue), r),
        r.reply is Ok,
        call_ensures(ChannelSelection::new, (message_id, dialogue.channel is Some), state),
        call_ensures(keyboard_markup::<Alternatives>, (&state.buttons,), offered),
        shared_linkable(*answer),
        call_ensures(ChannelSelection::handle_message, (state, answer), Ok(again)),
        again.dialogue is Keep,
        call_ensures(Alternatives::button, (&Alternatives::PrivateChat,), here),
        call_ensures(Alternatives::button, (&Alternatives::RequestChannel(message_id),), channel),
    ensures
        r.reply->Ok_0.markup is Some && r.reply->Ok_0.markup->0@ == offered@,
        again.reply is Ok && again.reply->Ok_0.markup is Some && again.reply->Ok_0.markup->0@
            == offered@,
        again.reply->Ok_0.text@
            == "\u{fe0f}Bitte verwende die Schaltflächen, um einen Chat auszuwählen, oder sende /"@
            + "abbrechen"@ + " zum Abbrechen"@,
        here matches Button::Text { text } && text@ == "Dieser Chat"@,
        channel matches Button::RequestChat { text, request_id } && text@ == "Channel auswählen"@
            && request_id == message_id,
{
}

} // verus!
