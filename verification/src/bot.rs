//! The bot's side of its conversations with users.
//!
//! Each handler takes what the user sent and what is stored about the chat, and
//! answers with a [`Plan`]: what to store, and what to reply.

use vstd::prelude::*;
use vstd::string::*;

use crate::channel::SelectedChannel;
use crate::command::{Command, CommandParser, ParsedCommand};
use crate::keyboard::ReplyMarkup;
use crate::message_builder::{Error as MessageError, MessageEntity};
use crate::rich_text::{render, Piece};
use crate::text::{ascii_lowercase, same_text};
use crate::types::ChatId;

pub mod admin;
pub mod cancel;
pub mod help;
pub mod new_rule;
pub mod remove_all_rules;
pub mod remove_rule;
pub mod rules;
pub mod target;

use self::new_rule::{PatternInput, TagSelection};
use self::remove_all_rules::ConfirmRemoveAllFilters;
use self::remove_rule::RemoveFilterSelection;
use self::target::ChannelSelection;

verus! {

use crate::channel::{opt_channel, ChannelView};
use crate::command::{parsed_command, ParsedCommandView};
use crate::keyboard::MarkupView;
use crate::message_builder::{entity_views, EntityView};
use crate::rich_text::{entities_of, fits, piece_views, text_of, PieceView};
use crate::text::{ascii_lowercased, opt_string, opt_text};
use crate::types::{condition_views, filter_views, ConditionView, Tag};
use self::target::Alternatives;

pub const SHORT_DESCRIPTION: &'static str =
    "Dieser Bot benachrichtigt dich, wenn im Ratsinformationssystem der Stadt Bonn neue Vorlagen veröffentlicht werden.";

/// What the bot waits for in a chat.
#[derive(Debug, PartialEq, Eq)]
pub enum DialogueState {
    Initial,
    ConfirmRemoveAllFilters(ConfirmRemoveAllFilters),
    PatternInput(PatternInput),
    TagSelection(TagSelection),
    ChannelSelection(ChannelSelection),
    RemoveFilterSelection(RemoveFilterSelection),
}

/// What a dialogue's state says.
pub enum StateView {
    Initial,
    ConfirmRemoveAllFilters,
    PatternInput { conditions: Seq<ConditionView>, tag: Tag },
    TagSelection { conditions: Seq<ConditionView> },
    ChannelSelection { buttons: Seq<Alternatives> },
    RemoveFilterSelection { filters: Seq<Seq<ConditionView>> },
}

impl View for DialogueState {
    type V = StateView;

    open spec fn view(&self) -> StateView {
        match self {
            DialogueState::Initial => StateView::Initial,
            DialogueState::ConfirmRemoveAllFilters(_) => StateView::ConfirmRemoveAllFilters,
            DialogueState::PatternInput(s) => StateView::PatternInput {
                conditions: condition_views(s.previous_conditions@),
                tag: s.tag,
            },
            DialogueState::TagSelection(s) => StateView::TagSelection {
                conditions: condition_views(s.previous_conditions@),
            },
            DialogueState::ChannelSelection(s) => StateView::ChannelSelection {
                buttons: s.buttons@,
            },
            DialogueState::RemoveFilterSelection(s) => StateView::RemoveFilterSelection {
                filters: filter_views(s.filters@),
            },
        }
    }
}

/// What the bot knows of the conversation in a chat.
#[derive(Debug, PartialEq, Eq)]
pub struct Dialogue {
    pub channel: Option<SelectedChannel>,
    pub state: DialogueState,
}

/// What a dialogue says.
pub struct DialogueView {
    pub channel: Option<ChannelView>,
    pub state: StateView,
}

impl View for Dialogue {
    type V = DialogueView;

    open spec fn view(&self) -> DialogueView {
        DialogueView { channel: opt_channel(self.channel), state: self.state@ }
    }
}

impl Default for Dialogue {
    fn default() -> (r: Self)
        ensures
            r@ == (DialogueView { channel: None, state: StateView::Initial }),
    {
        Dialogue { channel: None, state: DialogueState::Initial }
    }
}

/// What is done to the stored dialogue of the chat.
#[derive(Debug, PartialEq, Eq)]
pub enum DialogueWrite {
    Keep,
    Remove,
    Store(Dialogue),
}

/// What is done to the stored dialogue of the chat.
pub enum WriteView {
    Keep,
    Remove,
    Store(DialogueView),
}

impl View for DialogueWrite {
    type V = WriteView;

    open spec fn view(&self) -> WriteView {
        match self {
            DialogueWrite::Keep => WriteView::Keep,
            DialogueWrite::Remove => WriteView::Remove,
            DialogueWrite::Store(d) => WriteView::Store(d@),
        }
    }
}

/// The dialogue is back at its start, with the channel as it is.
pub open spec fn reset_view(channel: Option<ChannelView>) -> WriteView {
    WriteView::Store(DialogueView { channel, state: StateView::Initial })
}

/// Puts the dialogue back to its start, with the channel as it is.
pub fn reset(channel: Option<SelectedChannel>) -> (r: DialogueWrite)
    ensures
        r@ == reset_view(opt_channel(channel)),
{
    DialogueWrite::Store(Dialogue { channel, state: DialogueState::Initial })
}

/// A reply to a user.
#[derive(Debug, PartialEq, Eq)]
pub struct Reply {
    pub text: String,
    pub entities: Vec<MessageEntity>,
    pub markup: Option<ReplyMarkup>,
}

/// What a reply says.
#[verifier::ext_equal]
pub struct ReplyView {
    pub text: Seq<char>,
    pub entities: Seq<EntityView>,
    pub markup: Option<MarkupView>,
}

/// What is done to the keyboard, if anything.
pub open spec fn opt_markup(markup: Option<ReplyMarkup>) -> Option<MarkupView> {
    match markup {
        Some(m) => Some(m@),
        None => None,
    }
}

impl View for Reply {
    type V = ReplyView;

    open spec fn view(&self) -> ReplyView {
        ReplyView {
            text: self.text@,
            entities: entity_views(self.entities@),
            markup: opt_markup(self.markup),
        }
    }
}

/// The reply that is made of pieces.
pub open spec fn reply_of(pieces: Seq<PieceView>, markup: Option<MarkupView>) -> ReplyView {
    ReplyView { text: text_of(pieces), entities: entities_of(pieces), markup }
}

/// The reply that is a mere text.
pub open spec fn text_reply(text: Seq<char>, markup: Option<MarkupView>) -> ReplyView {
    ReplyView { text, entities: Seq::empty(), markup }
}

impl Reply {
    /// Makes a reply of pieces, unless it gets too long.
    pub fn of(pieces: Vec<Piece>, markup: Option<ReplyMarkup>) -> (r: Result<Reply, MessageError>)
        ensures
            match r {
                Ok(reply) => {
                    &&& fits(piece_views(pieces@))
                    &&& reply@ == reply_of(piece_views(pieces@), opt_markup(markup))
                },
                Err(_) => !fits(piece_views(pieces@)),
            },
    {
        match render(&pieces) {
            Ok((text, entities)) => Ok(Reply { text, entities, markup }),
            Err(e) => Err(e),
        }
    }

    /// Makes a reply of a text.
    pub fn text(text: &str, markup: Option<ReplyMarkup>) -> (r: Reply)
        ensures
            r@ == text_reply(text@, opt_markup(markup)),
    {
        let r = Reply { text: text.to_owned(), entities: Vec::new(), markup };
        assert(r@ =~= text_reply(text@, opt_markup(markup)));
        r
    }
}

/// What a handler wants to be done: first the dialogue is written, then the
/// reply is sent.
#[derive(Debug, PartialEq, Eq)]
pub struct Plan {
    pub dialogue: DialogueWrite,
    pub reply: Reply,
}

/// What a plan says.
pub struct PlanView {
    pub dialogue: WriteView,
    pub reply: ReplyView,
}

impl View for Plan {
    type V = PlanView;

    open spec fn view(&self) -> PlanView {
        PlanView { dialogue: self.dialogue@, reply: self.reply@ }
    }
}

/// The result of a handler whose reply is made of pieces: the plan, unless the
/// reply gets too long.
pub open spec fn planned(
    r: Result<Plan, MessageError>,
    dialogue: WriteView,
    pieces: Seq<PieceView>,
    markup: Option<MarkupView>,
) -> bool {
    match r {
        Ok(plan) => {
            &&& fits(pieces)
            &&& plan@ == (PlanView { dialogue, reply: reply_of(pieces, markup) })
        },
        Err(_) => !fits(pieces),
    }
}

/// Makes a plan whose reply is made of pieces.
pub fn plan(dialogue: DialogueWrite, pieces: Vec<Piece>, markup: Option<ReplyMarkup>) -> (r: Result<
    Plan,
    MessageError,
>)
    ensures
        planned(r, dialogue@, piece_views(pieces@), opt_markup(markup)),
{
    match Reply::of(pieces, markup) {
        Ok(reply) => Ok(Plan { dialogue, reply }),
        Err(e) => Err(e),
    }
}

/// Why a message could not be handled.
#[derive(Debug, PartialEq, Eq)]
pub enum HandlerError {
    NotChannelAdmin { user: ChatId, channel: ChatId },
    UnexpectedMessage,
    TopicsNotSupported,
    UnknownCommand(String),
    /// The Telegram API refused a request.
    Telegram,
    Database,
    MessageBuilder(MessageError),
}

/// What is done about an error.
#[derive(Debug, PartialEq, Eq)]
pub struct ErrorResponse {
    pub remove_dialogue: bool,
    pub reply: Option<Reply>,
    /// The error is worth a warning in the log.
    pub warn: bool,
}

pub const NOT_CHANNEL_ADMIN: &'static str =
    "Du hast für diesen Channel nicht die notwendigen Rechte!";

pub const TOPICS_NOT_SUPPORTED: &'static str = "Topics werden noch nicht unterstützt";

pub const UNKNOWN_COMMAND: &'static str = "Unbekannter Befehl!";

pub const INTERNAL_ERROR: &'static str = "Ein interner Fehler ist aufgetreten 😢";

/// What is replied to an error. Errors of Telegram are not answered, as that
/// would presumably not work, nor are messages that nothing was expected of.
pub open spec fn error_reply(e: HandlerError) -> Option<ReplyView> {
    match e {
        HandlerError::NotChannelAdmin { .. } => Some(
            text_reply(NOT_CHANNEL_ADMIN@, Some(MarkupView::RemoveKeyboard)),
        ),
        HandlerError::TopicsNotSupported => Some(text_reply(TOPICS_NOT_SUPPORTED@, None)),
        HandlerError::UnexpectedMessage => None,
        HandlerError::UnknownCommand(_) => Some(text_reply(UNKNOWN_COMMAND@, None)),
        HandlerError::Telegram => None,
        HandlerError::Database => Some(text_reply(INTERNAL_ERROR@, None)),
        HandlerError::MessageBuilder(_) => Some(text_reply(INTERNAL_ERROR@, None)),
    }
}

/// Decides what is done about an error.
pub fn handle_error(e: &HandlerError) -> (r: ErrorResponse)
    ensures
        r.remove_dialogue == (e is NotChannelAdmin),
        match (r.reply, error_reply(*e)) {
            (Some(reply), Some(view)) => reply@ == view,
            (None, None) => true,
            _ => false,
        },
        r.warn == (e is NotChannelAdmin || e is Telegram || e is Database || e is MessageBuilder),
{
    match e {
        HandlerError::NotChannelAdmin { .. } => ErrorResponse {
            remove_dialogue: true,
            reply: Some(Reply::text(NOT_CHANNEL_ADMIN, Some(ReplyMarkup::RemoveKeyboard))),
            warn: true,
        },
        HandlerError::TopicsNotSupported => ErrorResponse {
            remove_dialogue: false,
            reply: Some(Reply::text(TOPICS_NOT_SUPPORTED, None)),
            warn: false,
        },
        HandlerError::UnexpectedMessage => ErrorResponse {
            remove_dialogue: false,
            reply: None,
            warn: false,
        },
        HandlerError::UnknownCommand(_) => ErrorResponse {
            remove_dialogue: false,
            reply: Some(Reply::text(UNKNOWN_COMMAND, None)),
            warn: false,
        },
        HandlerError::Telegram => ErrorResponse { remove_dialogue: false, reply: None, warn: true },
        HandlerError::Database => ErrorResponse {
            remove_dialogue: false,
            reply: Some(Reply::text(INTERNAL_ERROR, None)),
            warn: true,
        },
        HandlerError::MessageBuilder(_) => ErrorResponse {
            remove_dialogue: false,
            reply: Some(Reply::text(INTERNAL_ERROR, None)),
            warn: true,
        },
    }
}

/// The commands of the bot.
#[derive(Debug, Clone, Copy, PartialEq, Eq, Structural)]
pub enum CommandKind {
    NewRule,
    Rules,
    RemoveRule,
    RemoveAllRules,
    Target,
    Cancel,
    Help,
    Start,
    Privacy,
}

/// All commands, in the order in which they are listed.
pub open spec fn all_kinds() -> Seq<CommandKind> {
    seq![
        CommandKind::NewRule,
        CommandKind::Rules,
        CommandKind::RemoveRule,
        CommandKind::RemoveAllRules,
        CommandKind::Target,
        CommandKind::Cancel,
        CommandKind::Help,
        CommandKind::Start,
        CommandKind::Privacy,
    ]
}

impl CommandKind {
    /// The name of the command.
    pub open spec fn spec_name(self) -> Seq<char> {
        match self {
            CommandKind::NewRule => "neue_regel"@,
            CommandKind::Rules => "regeln"@,
            CommandKind::RemoveRule => "regel_loeschen"@,
            CommandKind::RemoveAllRules => "alle_regeln_loeschen"@,
            CommandKind::Target => "ziel"@,
            CommandKind::Cancel => "abbrechen"@,
            CommandKind::Help => "hilfe"@,
            CommandKind::Start => "start"@,
            CommandKind::Privacy => "datenschutz"@,
        }
    }

    /// The name of the command.
    pub fn name(&self) -> (r: &'static str)
        ensures
            r@ == self.spec_name(),
    {
        match self {
            CommandKind::NewRule => "neue_regel",
            CommandKind::Rules => "regeln",
            CommandKind::RemoveRule => "regel_loeschen",
            CommandKind::RemoveAllRules => "alle_regeln_loeschen",
            CommandKind::Target => "ziel",
            CommandKind::Cancel => "abbrechen",
            CommandKind::Help => "hilfe",
            CommandKind::Start => "start",
            CommandKind::Privacy => "datenschutz",
        }
    }

    /// What the command does.
    pub open spec fn spec_description(self) -> Seq<char> {
        match self {
            CommandKind::NewRule => "Erstelle eine neue Benachrichtigungsregel"@,
            CommandKind::Rules => "Zeige alle bestehenden Regeln an"@,
            CommandKind::RemoveRule => "Lösche eine bestehende Regel"@,
            CommandKind::RemoveAllRules => "Entferne alle Regeln"@,
            CommandKind::Target => {
                "Lege fest, für welchen Chat du Benachrichtigungen konfigurieren möchtest"@
            },
            CommandKind::Cancel => "Brich den aktuellen Vorgang ab"@,
            CommandKind::Help => "Zeige die Hilfenachricht an"@,
            CommandKind::Start => "Zeige die Hilfenachricht an"@,
            CommandKind::Privacy => "Zeige die Datenschutzerklärung an"@,
        }
    }

    /// What the command does.
    pub fn description(&self) -> (r: &'static str)
        ensures
            r@ == self.spec_description(),
    {
        match self {
            CommandKind::NewRule => "Erstelle eine neue Benachrichtigungsregel",
            CommandKind::Rules => "Zeige alle bestehenden Regeln an",
            CommandKind::RemoveRule => "Lösche eine bestehende Regel",
            CommandKind::RemoveAllRules => "Entferne alle Regeln",
            CommandKind::Target => {
                "Lege fest, für welchen Chat du Benachrichtigungen konfigurieren möchtest"
            },
            CommandKind::Cancel => "Brich den aktuellen Vorgang ab",
            CommandKind::Help => "Zeige die Hilfenachricht an",
            CommandKind::Start => "Zeige die Hilfenachricht an",
            CommandKind::Privacy => "Zeige die Datenschutzerklärung an",
        }
    }

    /// The command as it is announced. The target can be set in private chats
    /// only, the others are for everyone.
    pub fn command(&self) -> (r: Command)
        ensures
            r.name@ == self.spec_name(),
            r.description@ == self.spec_description(),
            r.group_admin == (*self != CommandKind::Target),
            r.group_member == (*self != CommandKind::Target),
            r.private_chat,
            r.admin,
    {
        let for_groups = match self {
            CommandKind::Target => false,
            _ => true,
        };
        Command {
            name: self.name(),
            description: self.description(),
            group_admin: for_groups,
            group_member: for_groups,
            private_chat: true,
            admin: true,
        }
    }
}

/// All commands, in the order in which they are listed.
pub fn kinds() -> (r: Vec<CommandKind>)
    ensures
        r@ == all_kinds(),
{
    let r = vec![
        CommandKind::NewRule,
        CommandKind::Rules,
        CommandKind::RemoveRule,
        CommandKind::RemoveAllRules,
        CommandKind::Target,
        CommandKind::Cancel,
        CommandKind::Help,
        CommandKind::Start,
        CommandKind::Privacy,
    ];
    assert(r@ =~= all_kinds());
    r
}

/// The command with a given name, whatever the case of its letters.
pub open spec fn kind_named(name: Seq<char>) -> Option<CommandKind> {
    let name = ascii_lowercased(name);
    if exists|k: CommandKind| #[trigger] k.spec_name() == name {
        Some(choose|k: CommandKind| #[trigger] k.spec_name() == name)
    } else {
        None
    }
}

/// No two commands have the same name.
pub proof fn law_command_names_differ(a: CommandKind, b: CommandKind)
    requires
        a.spec_name() == b.spec_name(),
    ensures
        a == b,
{
    reveal_strlit("neue_regel");
    reveal_strlit("regeln");
    reveal_strlit("regel_loeschen");
    reveal_strlit("alle_regeln_loeschen");
    reveal_strlit("ziel");
    reveal_strlit("abbrechen");
    reveal_strlit("hilfe");
    reveal_strlit("start");
    reveal_strlit("datenschutz");
    assert("neue_regel"@.len() == 10);
    assert("regeln"@.len() == 6);
    assert("regel_loeschen"@.len() == 14);
    assert("alle_regeln_loeschen"@.len() == 20);
    assert("ziel"@.len() == 4);
    assert("abbrechen"@.len() == 9);
    assert("hilfe"@.len() == 5 && "hilfe"@[0] == 'h');
    assert("start"@.len() == 5 && "start"@[0] == 's');
    assert("datenschutz"@.len() == 11);
}

/// A command that is named as it is listed is recognised, whatever the case of
/// its letters.
pub proof fn law_listed_commands_are_known(k: CommandKind, name: Seq<char>)
    requires
        ascii_lowercased(name) == k.spec_name(),
    ensures
        kind_named(name) == Some(k),
{
    let found = choose|x: CommandKind| #[trigger] x.spec_name() == ascii_lowercased(name);
    law_command_names_differ(found, k);
}

/// Finds the command with a given name, whatever the case of its letters.
pub fn find_command(name: &str) -> (r: Option<CommandKind>)
    ensures
        r == kind_named(name@),
{
    let lower = ascii_lowercase(name);
    let kinds = kinds();
    let mut i: usize = 0;
    while i < kinds.len()
        invariant
            i <= kinds@.len(),
            kinds@ == all_kinds(),
            lower@ == ascii_lowercased(name@),
            forall|j: int| 0 <= j < i ==> (#[trigger] kinds@[j]).spec_name() != lower@,
        decreases kinds@.len() - i,
    {
        let kind = kinds[i];
        if same_text(kind.name(), lower.as_str()) {
            proof {
                law_listed_commands_are_known(kind, name@);
            }
            return Some(kind);
        }
        i = i + 1;
    }
    assert forall|k: CommandKind| #[trigger] k.spec_name() != lower@ by {
        let i: int = match k {
            CommandKind::NewRule => 0,
            CommandKind::Rules => 1,
            CommandKind::RemoveRule => 2,
            CommandKind::RemoveAllRules => 3,
            CommandKind::Target => 4,
            CommandKind::Cancel => 5,
            CommandKind::Help => 6,
            CommandKind::Start => 7,
            CommandKind::Privacy => 8,
        };
        assert(kinds@[i] == k);
    }
    None
}

/// What the bot looks at first in a message.
#[derive(Debug, PartialEq, Eq)]
pub struct Incoming {
    pub migrate_to_chat_id: Option<ChatId>,
    pub text: Option<String>,
    pub is_topic_message: Option<bool>,
}

/// How a message is handled.
#[derive(Debug, PartialEq, Eq)]
pub enum Handling {
    /// The chat has moved.
    Migrate(ChatId),
    /// A command.
    Command { kind: CommandKind, param: Option<String> },
    /// An answer to what the bot asked last.
    Dialogue,
    Error(HandlerError),
}

/// What the handling of a message says.
pub enum HandlingView {
    Migrate(ChatId),
    Command { kind: CommandKind, param: Option<Seq<char>> },
    Dialogue,
    TopicsNotSupported,
    UnknownCommand(Seq<char>),
    Other,
}

impl View for Handling {
    type V = HandlingView;

    open spec fn view(&self) -> HandlingView {
        match self {
            Handling::Migrate(to) => HandlingView::Migrate(*to),
            Handling::Command { kind, param } => HandlingView::Command {
                kind: *kind,
                param: opt_string(*param),
            },
            Handling::Dialogue => HandlingView::Dialogue,
            Handling::Error(HandlerError::TopicsNotSupported) => HandlingView::TopicsNotSupported,
            Handling::Error(HandlerError::UnknownCommand(name)) => HandlingView::UnknownCommand(
                name@,
            ),
            Handling::Error(_) => HandlingView::Other,
        }
    }
}

/// How a text is handled, given what it says as a command.
pub open spec fn text_handling(
    is_topic: bool,
    command: Option<ParsedCommandView>,
) -> HandlingView {
    if is_topic {
        HandlingView::TopicsNotSupported
    } else {
        match command {
            None => HandlingView::Dialogue,
            Some(c) => match kind_named(c.command) {
                Some(kind) => HandlingView::Command { kind, param: c.param },
                None => HandlingView::UnknownCommand(ascii_lowercased(c.command)),
            },
        }
    }
}

/// Decides how a text is handled, given what it says as a command.
pub fn handle_text(is_topic: bool, command: Option<ParsedCommand<'_>>) -> (r: Handling)
    ensures
        r@ == text_handling(
            is_topic,
            match command {
                Some(c) => Some(c@),
                None => None,
            },
        ),
{
    if is_topic {
        return Handling::Error(HandlerError::TopicsNotSupported);
    }
    match command {
        None => Handling::Dialogue,
        Some(c) => match find_command(c.command) {
            Some(kind) => {
                let param = match c.param {
                    Some(p) => Some(p.to_owned()),
                    None => None,
                };
                Handling::Command { kind, param }
            },
            None => Handling::Error(HandlerError::UnknownCommand(ascii_lowercase(c.command))),
        },
    }
}

/// Decides how a message is handled.
pub fn handle(parser: &CommandParser, message: &Incoming) -> (r: Handling)
    ensures
        r@ == match (message.migrate_to_chat_id, message.text) {
            (Some(to), _) => HandlingView::Migrate(to),
            (None, Some(text)) => text_handling(
                message.is_topic_message == Some(true),
                parsed_command(parser@, text@),
            ),
            (None, None) => HandlingView::Dialogue,
        },
{
    if let Some(to) = message.migrate_to_chat_id {
        return Handling::Migrate(to);
    }
    match &message.text {
        Some(text) => {
            let is_topic = match message.is_topic_message {
                Some(t) => t,
                None => false,
            };
            handle_text(is_topic, parser.parse(text.as_str()))
        },
        None => Handling::Dialogue,
    }
}

/// What `/start` shows: the privacy notice if that is asked for, else the help.
pub fn start_shows(param: Option<&str>) -> (r: CommandKind)
    ensures
        r == (if opt_text(param) == Some(CommandKind::Privacy.spec_name()) {
            CommandKind::Privacy
        } else {
            CommandKind::Help
        }),
{
    match param {
        Some(p) => {
            if same_text(p, CommandKind::Privacy.name()) {
                CommandKind::Privacy
            } else {
                CommandKind::Help
            }
        },
        None => CommandKind::Help,
    }
}

/// The message that a response replies to: in groups the one that is answered.
pub fn reply_to(chat_id: ChatId, message_id: i32) -> (r: Option<i32>)
    ensures
        r == (if chat_id < 0 {
            Some(message_id)
        } else {
            None
        }),
{
    if chat_id < 0 {
        Some(message_id)
    } else {
        None
    }
}

/// The topic that a response goes to.
pub fn response_thread(is_topic_message: Option<bool>, message_thread_id: Option<i32>) -> (r: Option<
    i32,
>)
    ensures
        r == (if is_topic_message == Some(true) {
            message_thread_id
        } else {
            None
        }),
{
    match is_topic_message {
        Some(true) => message_thread_id,
        _ => None,
    }
}

/// A plan stores what it was made with, and its reply is what the pieces give.
/// There is none if the pieces are too long for a message.
pub proof fn law_plan_is_carried_out(
    dialogue: DialogueWrite,
    pieces: Vec<Piece>,
    markup: Option<ReplyMarkup>,
    r: Result<Plan, MessageError>,
    rendered: Result<(String, Vec<MessageEntity>), MessageError>,
)
    requires
        call_ensures(plan, (dialogue, pieces, markup), r),
        call_ensures(render, (&pieces,), rendered),
    ensures
        r is Ok <==> rendered is Ok,
        r matches Ok(p) ==> {
            let (text, entities) = rendered->Ok_0;
            &&& p.dialogue@ == dialogue@
            &&& p.reply.text@ == text@
            &&& entity_views(p.reply.entities@) == entity_views(entities@)
            &&& p.reply.markup is Some <==> markup is Some
            &&& markup matches Some(m) ==> p.reply.markup->0@ == m@
        },
{
}

/// The dialogue ends where it started, and the channel stays selected.
pub proof fn law_reset_keeps_the_channel(channel: Option<SelectedChannel>, r: DialogueWrite)
    requires
        call_ensures(reset, (channel,), r),
    ensures
        r matches DialogueWrite::Store(d) && d.state is Initial && opt_channel(d.channel)
            == opt_channel(channel),
{
}

/// Every error is answered, except where Telegram refused a request or nothing
/// was expected. Only who lacks the rights to a channel loses the dialogue, and
/// with it the selection of the channel.
pub proof fn law_errors_are_answered(e: &HandlerError, r: ErrorResponse)
    requires
        call_ensures(handle_error, (e,), r),
    ensures
        r.reply is None <==> e is Telegram || e is UnexpectedMessage,
        r.remove_dialogue <==> e is NotChannelAdmin,
        !r.warn <==> e is TopicsNotSupported || e is UnexpectedMessage || e is UnknownCommand,
        r.reply matches Some(reply) ==> reply.text@ == match *e {
            HandlerError::NotChannelAdmin { .. } => {
                "Du hast für diesen Channel nicht die notwendigen Rechte!"@
            },
            HandlerError::TopicsNotSupported => "Topics werden noch nicht unterstützt"@,
            HandlerError::UnknownCommand(_) => "Unbekannter Befehl!"@,
            _ => "Ein interner Fehler ist aufgetreten 😢"@,
        },
{
}

/// A command is found by its name, in capital letters or not. A name that no
/// command has finds none.
pub proof fn law_commands_are_found_by_name(
    name: &str,
    lower: String,
    r: Option<CommandKind>,
    kind: CommandKind,
    named: &str,
)
    requires
        call_ensures(find_command, (name,), r),
        call_ensures(ascii_lowercase, (name,), lower),
        call_ensures(CommandKind::name, (&kind,), named),
    ensures
        r == Some(kind) <==> named@ == lower@,
{
    if named@ == lower@ {
        law_listed_commands_are_known(kind, name@);
    }
}

/// The commands are named as they are announced.
pub proof fn law_command_names(k: CommandKind, name: &str)
    requires
        call_ensures(CommandKind::name, (&k,), name),
    ensures
        k is NewRule <==> name@ == "neue_regel"@,
        k is Rules <==> name@ == "regeln"@,
        k is RemoveRule <==> name@ == "regel_loeschen"@,
        k is RemoveAllRules <==> name@ == "alle_regeln_loeschen"@,
        k is Target <==> name@ == "ziel"@,
        k is Cancel <==> name@ == "abbrechen"@,
        k is Help <==> name@ == "hilfe"@,
        k is Start <==> name@ == "start"@,
        k is Privacy <==> name@ == "datenschutz"@,
{
    assert forall|other: CommandKind| #[trigger] other.spec_name() == name@ implies other == k by {
        law_command_names_differ(other, k);
    }
    assert(CommandKind::NewRule.spec_name() == "neue_regel"@);
    assert(CommandKind::Rules.spec_name() == "regeln"@);
    assert(CommandKind::RemoveRule.spec_name() == "regel_loeschen"@);
    assert(CommandKind::RemoveAllRules.spec_name() == "alle_regeln_loeschen"@);
    assert(CommandKind::Target.spec_name() == "ziel"@);
    assert(CommandKind::Cancel.spec_name() == "abbrechen"@);
    assert(CommandKind::Help.spec_name() == "hilfe"@);
    assert(CommandKind::Start.spec_name() == "start"@);
    assert(CommandKind::Privacy.spec_name() == "datenschutz"@);
}

/// Each command is listed, once, and announced everywhere, but for the target,
/// which is not announced in groups.
pub proof fn law_commands_are_listed(r: Vec<CommandKind>, k: CommandKind, c: Command)
    requires
        call_ensures(kinds, (), r),
        call_ensures(CommandKind::command, (&k,), c),
    ensures
        r@.contains(k),
        r@.no_duplicates(),
        c.private_chat,
        c.admin,
        c.group_admin <==> !(k is Target),
        c.group_member <==> !(k is Target),
{
    let i: int = match k {
        CommandKind::NewRule => 0,
        CommandKind::Rules => 1,
        CommandKind::RemoveRule => 2,
        CommandKind::RemoveAllRules => 3,
        CommandKind::Target => 4,
        CommandKind::Cancel => 5,
        CommandKind::Help => 6,
        CommandKind::Start => 7,
        CommandKind::Privacy => 8,
    };
    assert(r@[i] == k);
}

/// A text is taken as the command that it names, with its parameter. In a topic
/// it is refused, whatever it says; a command that is not known is an error; and
/// what is no command answers what the bot asked.
pub proof fn law_commands_are_handled(
    is_topic: bool,
    command: Option<ParsedCommand<'_>>,
    r: Handling,
    kind: Option<CommandKind>,
)
    requires
        call_ensures(handle_text, (is_topic, command), r),
        command matches Some(c) ==> call_ensures(find_command, (c.command,), kind),
    ensures
        is_topic ==> (r matches Handling::Error(e) && e is TopicsNotSupported),
        !is_topic && command is None ==> r is Dialogue,
        !is_topic && command is Some && kind is None ==> (r matches Handling::Error(e)
            && e is UnknownCommand),
        !is_topic && command is Some && kind is Some ==> (r matches Handling::Command {
            kind: k,
            param,
        } && Some(k) == kind && opt_string(param) == opt_text(command->0.param)),
{
    match r {
        Handling::Error(HandlerError::TopicsNotSupported) => {},
        Handling::Error(HandlerError::UnknownCommand(_)) => {},
        _ => {},
    }
}

/// A chat that has moved is moved, whatever else the message says. Other texts
/// are handled by what they say as a command, and a message without a text is an
/// answer.
pub proof fn law_messages_are_handled(
    parser: &CommandParser,
    message: &Incoming,
    r: Handling,
    text: &str,
    command: Option<ParsedCommand<'_>>,
    handled: Handling,
)
    requires
        call_ensures(handle, (parser, message), r),
        message.text matches Some(t) ==> text@ == t@,
        call_ensures(CommandParser::parse, (parser, text), command),
        call_ensures(handle_text, (message.is_topic_message == Some(true), command), handled),
    ensures
        message.migrate_to_chat_id matches Some(to) ==> r == Handling::Migrate(to),
        message.migrate_to_chat_id is None && message.text is None ==> r is Dialogue,
        message.migrate_to_chat_id is None && message.text is Some ==> r@ == handled@,
{
}

/// `/start` shows the privacy notice exactly if asked for it, else the help.
pub proof fn law_start_shows_what_is_asked_for(param: Option<&str>, r: CommandKind)
    requires
        call_ensures(start_shows, (param,), r),
    ensures
        r is Privacy <==> (param matches Some(p) && p@ == "datenschutz"@),
        r is Help || r is Privacy,
{
}

/// In a group a response refers to the message that it answers, in a private
/// chat to none. It goes to the topic that the message came from, if any.
pub proof fn law_responses_refer_to_messages(
    chat_id: ChatId,
    message_id: i32,
    r: Option<i32>,
    is_topic: Option<bool>,
    thread: Option<i32>,
    to: Option<i32>,
)
    requires
        call_ensures(reply_to, (chat_id, message_id), r),
        call_ensures(response_thread, (is_topic, thread), to),
    ensures
        chat_id < 0 ==> r == Some(message_id),
        chat_id >= 0 ==> r is None,
        is_topic == Some(true) ==> to == thread,
        is_topic != Some(true) ==> to is None,
{
}

/// A reply of a text holds it, without marks. A reply of pieces holds what they
/// give, unless it gets too long.
pub proof fn law_replies_hold_what_they_are_made_of(
    text: &str,
    markup: Option<ReplyMarkup>,
    r: Reply,
    pieces: Vec<Piece>,
    of: Result<Reply, MessageError>,
    rendered: Result<(String, Vec<MessageEntity>), MessageError>,
)
    requires
        call_ensures(Reply::text, (text, markup), r),
        call_ensures(Reply::of, (pieces, markup), of),
        call_ensures(render, (&pieces,), rendered),
    ensures
        r.text@ == text@,
        r.entities@.len() == 0,
        opt_markup(r.markup) == opt_markup(markup),
        of is Ok <==> rendered is Ok,
        of is Ok ==> of->Ok_0.text@ == rendered->Ok_0.0@ && entity_views(of->Ok_0.entities@)
            == entity_views(rendered->Ok_0.1@) && opt_markup(of->Ok_0.markup) == opt_markup(markup),
{
    assert(r@.entities.len() == entity_views(r.entities@).len());
    assert(entity_views(r.entities@).len() == r.entities@.len());
}

/// What each command does is said where commands are announced.
pub proof fn law_commands_are_described(
    k: CommandKind,
    description: &'static str,
    command: Command,
    name: &'static str,
)
    requires
        call_ensures(CommandKind::description, (&k,), description),
        call_ensures(CommandKind::command, (&k,), command),
        call_ensures(CommandKind::name, (&k,), name),
    ensures
        command.name@ == name@,
        command.description@ == description@,
        k is NewRule ==> description@ == "Erstelle eine neue Benachrichtigungsregel"@,
        k is Rules ==> description@ == "Zeige alle bestehenden Regeln an"@,
        k is RemoveRule ==> description@ == "Lösche eine bestehende Regel"@,
        k is RemoveAllRules ==> description@ == "Entferne alle Regeln"@,
        k is Target ==> description@
            == "Lege fest, für welchen Chat du Benachrichtigungen konfigurieren möchtest"@,
        k is Cancel ==> description@ == "Brich den aktuellen Vorgang ab"@,
        k is Help || k is Start ==> description@ == "Zeige die Hilfenachricht an"@,
        k is Privacy ==> description@ == "Zeige die Datenschutzerklärung an"@,
{
}

/// A command that is not known is named in the error, in small letters.
pub proof fn law_unknown_command_is_named(
    command: ParsedCommand<'_>,
    r: Handling,
    found: Option<CommandKind>,
    lower: String,
)
    requires
        call_ensures(handle_text, (false, Some(command)), r),
        call_ensures(find_command, (command.command,), found),
        call_ensures(ascii_lowercase, (command.command,), lower),
    ensures
        found is None ==> (r matches Handling::Error(HandlerError::UnknownCommand(name)) && name@
            == lower@),
{
    match r {
        Handling::Error(HandlerError::UnknownCommand(_)) => {},
        Handling::Error(HandlerError::TopicsNotSupported) => {},
        _ => {},
    }
}

} // verus!
