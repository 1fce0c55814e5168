//! The channel that a user configures from a private chat.

use vstd::prelude::*;
use vstd::string::*;

use crate::rich_text::Piece;
use crate::text::decimal_string;
use crate::types::ChatId;

verus! {

use crate::rich_text::{piece_views, PieceView};
use crate::text::{decimal, opt_string};

/// A channel that a user has selected.
#[derive(Debug, PartialEq, Eq)]
pub struct SelectedChannel {
    pub chat_id: ChatId,
    pub username: Option<String>,
    pub title: Option<String>,
}

/// What is known of a channel.
pub struct ChannelView {
    pub chat_id: ChatId,
    pub username: Option<Seq<char>>,
    pub title: Option<Seq<char>>,
}

impl View for SelectedChannel {
    type V = ChannelView;

    open spec fn view(&self) -> ChannelView {
        ChannelView {
            chat_id: self.chat_id,
            username: opt_string(self.username),
            title: opt_string(self.title),
        }
    }
}

/// What is known of a channel, if one is selected.
pub open spec fn opt_channel(channel: Option<SelectedChannel>) -> Option<ChannelView> {
    match channel {
        Some(c) => Some(c@),
        None => None,
    }
}

impl Clone for SelectedChannel {
    fn clone(&self) -> (r: Self)
        ensures
            r == *self,
    {
        SelectedChannel {
            chat_id: self.chat_id,
            username: self.username.clone(),
            title: self.title.clone(),
        }
    }
}

/// The offset between the identifiers of channels in chats and in links.
pub const CHANNEL_ID_OFFSET: i64 = 1_000_000_000_000;

/// What is shown where nothing is selected.
pub const THIS_CHAT: &'static str = "💬 Dieser Chat";

/// What is shown where nothing is selected, as an object.
pub const THIS_CHAT_ACCUSATIVE: &'static str = "diesen Chat";

impl ChannelView {
    /// The identifier of the channel in links.
    pub open spec fn channel_id(self) -> nat {
        let id = self.chat_id + CHANNEL_ID_OFFSET;
        if id < 0 {
            (-id) as nat
        } else {
            id as nat
        }
    }

    /// The identifier of the channel in links can be computed.
    pub open spec fn has_channel_id(self) -> bool {
        self.chat_id <= i64::MAX - CHANNEL_ID_OFFSET
    }

    /// The channel can be linked to.
    pub open spec fn linkable(self) -> bool {
        self.username is None ==> self.has_channel_id()
    }

    /// The address of the channel.
    pub open spec fn url(self) -> Seq<char> {
        match self.username {
            Some(username) => "https://t.me/"@ + username,
            None => "https://t.me/c/"@ + decimal(self.channel_id()),
        }
    }

    /// What the channel is called.
    pub open spec fn name(self) -> Seq<char> {
        match (self.title, self.username) {
            (Some(title), _) => title,
            (None, Some(username)) => "@"@ + username,
            (None, None) => "<unbekannt>"@,
        }
    }

    /// The link to the channel, with its name in quotes.
    pub open spec fn hyperlink(self) -> PieceView {
        PieceView::link(self.url(), "„"@ + self.name() + "“"@)
    }
}

/// The selected chat can be shown.
pub open spec fn showable(channel: Option<ChannelView>) -> bool {
    match channel {
        Some(c) => c.linkable(),
        None => true,
    }
}

/// The selected chat, with an icon.
pub open spec fn selection(channel: Option<ChannelView>) -> Seq<PieceView> {
    match channel {
        Some(c) => seq![PieceView::plain("📢 "@), c.hyperlink()],
        None => seq![PieceView::plain(THIS_CHAT@)],
    }
}

/// The selected chat, as an object.
pub open spec fn selection_accusative(channel: Option<ChannelView>) -> Seq<PieceView> {
    match channel {
        Some(c) => seq![PieceView::plain("den Kanal "@), c.hyperlink()],
        None => seq![PieceView::plain(THIS_CHAT_ACCUSATIVE@)],
    }
}

impl SelectedChannel {
    /// Converts the internal chat id to the public channel id that is used in
    /// links.
    pub fn channel_id(&self) -> (r: u64)
        requires
            self@.has_channel_id(),
        ensures
            r == self@.channel_id(),
    {
        let id: i64 = self.chat_id + CHANNEL_ID_OFFSET;
        if id < 0 {
            (-(id as i128)) as u64
        } else {
            id as u64
        }
    }

    /// The link to the channel.
    pub fn hyperlink(&self) -> (r: Piece)
        requires
            self@.linkable(),
        ensures
            r@ == self@.hyperlink(),
    {
        let link = match &self.username {
            Some(username) => {
                let mut s = "https://t.me/".to_owned();
                s.append(username.as_str());
                s
            },
            None => {
                let mut s = "https://t.me/c/".to_owned();
                let id = decimal_string(self.channel_id());
                s.append(id.as_str());
                s
            },
        };
        let mut text = "„".to_owned();
        match (&self.title, &self.username) {
            (Some(title), _) => {
                text.append(title.as_str());
            },
            (None, Some(username)) => {
                text.append("@");
                text.append(username.as_str());
                assert(text@ =~= "„"@ + self@.name());
            },
            (None, None) => {
                text.append("<unbekannt>");
            },
        }
        text.append("“");
        Piece::link(link.as_str(), text.as_str())
    }

    /// Writes the current chat selection, with an icon.
    pub fn chat_selection(channel: &Option<Self>) -> (r: Vec<Piece>)
        requires
            showable(opt_channel(*channel)),
        ensures
            piece_views(r@) == selection(opt_channel(*channel)),
    {
        let r = match channel {
            Some(channel) => vec![Piece::plain("📢 "), channel.hyperlink()],
            None => vec![Piece::plain(THIS_CHAT)],
        };
        assert(piece_views(r@) =~= selection(opt_channel(*channel)));
        r
    }

    /// Writes the current chat selection as an object.
    pub fn chat_selection_accusative(channel: &Option<Self>) -> (r: Vec<Piece>)
        requires
            showable(opt_channel(*channel)),
        ensures
            piece_views(r@) == selection_accusative(opt_channel(*channel)),
    {
        let r = match channel {
            Some(channel) => vec![Piece::plain("den Kanal "), channel.hyperlink()],
            None => vec![Piece::plain(THIS_CHAT_ACCUSATIVE)],
        };
        assert(piece_views(r@) =~= selection_accusative(opt_channel(*channel)));
        r
    }
}

/// A member of a chat, as far as it matters what the member may do.
#[derive(Clone, Copy, Debug, PartialEq, Eq, Structural)]
pub enum ChatMember {
    Creator { user: u64 },
    Administrator { user: u64, can_post_messages: Option<bool> },
    Member,
    Restricted { can_send_messages: bool },
    Left,
    Kicked,
}

/// Whether a member may send messages. An administrator may unless it is said
/// otherwise.
pub fn can_send_messages(c: &ChatMember) -> (r: bool)
    ensures
        r == match *c {
            ChatMember::Administrator { can_post_messages, .. } => can_post_messages != Some(false),
            ChatMember::Restricted { can_send_messages } => can_send_messages,
            ChatMember::Left => false,
            ChatMember::Kicked => false,
            _ => true,
        },
{
    match c {
        ChatMember::Administrator { can_post_messages, .. } => match can_post_messages {
            Some(can) => *can,
            None => true,
        },
        ChatMember::Restricted { can_send_messages } => *can_send_messages,
        ChatMember::Left => false,
        ChatMember::Kicked => false,
        _ => true,
    }
}

/// The member is the user with the given identifier, and administers the chat.
pub open spec fn administers(member: ChatMember, user_id: ChatId) -> bool {
    match member {
        ChatMember::Creator { user } => user == user_id,
        ChatMember::Administrator { user, .. } => user == user_id,
        _ => false,
    }
}

/// One of the members is the user, and administers the chat.
pub open spec fn authorized(members: Seq<ChatMember>, user_id: ChatId) -> bool {
    exists|i: int| 0 <= i < members.len() && administers(#[trigger] members[i], user_id)
}

/// Whether one of the members is the user, and administers the chat.
pub fn is_authorized(members: &Vec<ChatMember>, user_id: ChatId) -> (r: bool)
    ensures
        r == authorized(members@, user_id),
{
    let mut i: usize = 0;
    while i < members.len()
        invariant
            i <= members@.len(),
            forall|j: int| 0 <= j < i ==> !administers(#[trigger] members@[j], user_id),
        decreases members@.len() - i,
    {
        let id: Option<u64> = match members[i] {
            ChatMember::Creator { user } => Some(user),
            ChatMember::Administrator { user, .. } => Some(user),
            _ => None,
        };
        if let Some(user) = id {
            if user <= i64::MAX as u64 && user as i64 == user_id {
                assert(administers(members@[i as int], user_id));
                return true;
            }
        }
        i = i + 1;
    }
    false
}

/// Which chat is configured.
#[derive(Clone, Copy, Debug, PartialEq, Eq, Structural)]
pub enum ChatChoice {
    Chat(ChatId),
    /// The members of the channel have to be asked for first.
    AskMembers(ChatId),
    NotChannelAdmin { user: ChatId, channel: ChatId },
}

/// Decides which chat is configured from a chat. A channel can be configured
/// only by those who administer it.
pub fn selected_chat(
    chat_id: ChatId,
    channel: &Option<SelectedChannel>,
    members: Option<&Vec<ChatMember>>,
) -> (r: ChatChoice)
    ensures
        r == match *channel {
            None => ChatChoice::Chat(chat_id),
            Some(c) => match members {
                None => ChatChoice::AskMembers(c.chat_id),
                Some(m) => if authorized(m@, chat_id) {
                    ChatChoice::Chat(c.chat_id)
                } else {
                    ChatChoice::NotChannelAdmin { user: chat_id, channel: c.chat_id }
                },
            },
        },
{
    match channel {
        None => ChatChoice::Chat(chat_id),
        Some(c) => match members {
            None => ChatChoice::AskMembers(c.chat_id),
            Some(m) => {
                if is_authorized(m, chat_id) {
                    ChatChoice::Chat(c.chat_id)
                } else {
                    ChatChoice::NotChannelAdmin { user: chat_id, channel: c.chat_id }
                }
            },
        },
    }
}

/// The public and the internal identifier of a channel determine each other.
pub proof fn law_channel_id_injective(a: ChannelView, b: ChannelView)
    requires
        a.chat_id + CHANNEL_ID_OFFSET <= 0,
        b.chat_id + CHANNEL_ID_OFFSET <= 0,
        a.channel_id() == b.channel_id(),
    ensures
        a.chat_id == b.chat_id,
{
}

/// Nobody configures a channel without administering it.
pub proof fn law_only_admins_configure_channels(members: Seq<ChatMember>, user_id: ChatId)
    requires
        forall|i: int|
            0 <= i < members.len() ==> (#[trigger] members[i]) is Member || members[i] is Restricted
                || members[i] is Left || members[i] is Kicked,
    ensures
        !authorized(members, user_id),
{
}

/// Who has left a chat or was thrown out does not send messages there, nor who
/// was restricted to read or, as an administrator, was denied posting. All
/// others do.
pub proof fn law_who_sends_messages(c: &ChatMember, r: bool)
    requires
        call_ensures(can_send_messages, (c,), r),
    ensures
        !r <==> (c is Left || c is Kicked || *c == (ChatMember::Restricted {
            can_send_messages: false,
        }) || (*c matches ChatMember::Administrator { can_post_messages, .. } && can_post_messages
            == Some(false))),
{
}

/// A user is authorized exactly if the members hold that user, as the creator or
/// as an administrator, with whatever rights.
pub proof fn law_admins_are_authorized(members: Vec<ChatMember>, user_id: ChatId, r: bool)
    requires
        call_ensures(is_authorized, (&members, user_id), r),
    ensures
        r <==> exists|i: int|
            0 <= i < members@.len() && match #[trigger] members@[i] {
                ChatMember::Creator { user } => user == user_id,
                ChatMember::Administrator { user, .. } => user == user_id,
                _ => false,
            },
{
    if r {
        let i = choose|i: int|
            0 <= i < members@.len() && administers(#[trigger] members@[i], user_id);
        assert(administers(members@[i], user_id));
    }
    if exists|i: int|
        0 <= i < members@.len() && match #[trigger] members@[i] {
            ChatMember::Creator { user } => user == user_id,
            ChatMember::Administrator { user, .. } => user == user_id,
            _ => false,
        } {
        let i = choose|i: int|
            0 <= i < members@.len() && match #[trigger] members@[i] {
                ChatMember::Creator { user } => user == user_id,
                ChatMember::Administrator { user, .. } => user == user_id,
                _ => false,
            };
        assert(administers(members@[i], user_id));
    }
}

/// Without a channel, a chat configures itself. With one, the channel is
/// configured, once its members were asked for and if the user is authorized;
/// nobody else gets to configure it.
pub proof fn law_configured_chat(
    chat_id: ChatId,
    channel: Option<SelectedChannel>,
    members: Vec<ChatMember>,
    first: ChatChoice,
    asked: ChatChoice,
    authorized: bool,
)
    requires
        call_ensures(selected_chat, (chat_id, &channel, None), first),
        call_ensures(selected_chat, (chat_id, &channel, Some(&members)), asked),
        call_ensures(is_authorized, (&members, chat_id), authorized),
    ensures
        channel is None ==> first == ChatChoice::Chat(chat_id) && asked == ChatChoice::Chat(chat_id),
        channel matches Some(c) ==> first == ChatChoice::AskMembers(c.chat_id),
        channel is Some && authorized ==> asked == ChatChoice::Chat(channel->0.chat_id),
        channel is Some && !authorized ==> asked == (ChatChoice::NotChannelAdmin {
            user: chat_id,
            channel: channel->0.chat_id,
        }),
{
}

/// A channel with a name is linked to by it. One without is linked to by its
/// identifier without the offset that channels have.
pub proof fn law_links_lead_to_channels(
    c: &SelectedChannel,
    r: Piece,
    id: u64,
    number: String,
)
    requires
        c@.linkable(),
        call_ensures(SelectedChannel::hyperlink, (c,), r),
        c.username is None ==> call_ensures(SelectedChannel::channel_id, (c,), id),
        call_ensures(decimal_string, (id,), number),
    ensures
        r.style matches crate::rich_text::Style::Link(url) && url@ == match c.username {
            Some(username) => "https://t.me/"@ + username@,
            None => "https://t.me/c/"@ + number@,
        },
        r.text@ == "„"@ + (match (c.title, c.username) {
            (Some(title), _) => title@,
            (None, Some(username)) => "@"@ + username@,
            (None, None) => "<unbekannt>"@,
        }) + "“"@,
        c.username is None ==> (id == c.chat_id + 1_000_000_000_000 || id == -(c.chat_id
            + 1_000_000_000_000)),
{
}

/// The selected chat is shown as a link to the channel, or as this chat.
pub proof fn law_selection_is_shown(
    channel: Option<SelectedChannel>,
    shown: Vec<Piece>,
    object: Vec<Piece>,
    link: Piece,
)
    requires
        showable(opt_channel(channel)),
        call_ensures(SelectedChannel::chat_selection, (&channel,), shown),
        call_ensures(SelectedChannel::chat_selection_accusative, (&channel,), object),
        channel matches Some(c) ==> call_ensures(SelectedChannel::hyperlink, (&c,), link),
    ensures
        channel is None ==> shown@.len() == 1 && object@.len() == 1 && shown@[0].text@
            == "💬 Dieser Chat"@ && object@[0].text@ == "diesen Chat"@,
        channel is Some ==> shown@.len() == 2 && object@.len() == 2 && shown@[1]@ == link@
            && object@[1]@ == link@ && shown@[0].text@ == "📢 "@ && object@[0].text@ == "den Kanal "@,
{
    let a = piece_views(shown@);
    let b = piece_views(object@);
    assert(a.len() == shown@.len() && b.len() == object@.len());
    assert(a[0] == shown@[0]@ && b[0] == object@[0]@);
    if channel is Some {
        assert(a[1] == shown@[1]@ && b[1] == object@[1]@);
    }
}

} // verus!
