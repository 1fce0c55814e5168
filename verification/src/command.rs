//! Bot commands: how they are written, listed and announced.

use vstd::prelude::*;
use vstd::string::*;

use crate::pattern::captures;

verus! {

use crate::pattern::{group_views, pattern_captures};
use crate::text::opt_text;

/// A command that a user has sent.
#[derive(Debug, Clone, Copy)]
pub struct ParsedCommand<'a> {
    pub command: &'a str,
    pub username: Option<&'a str>,
    pub param: Option<&'a str>,
}

/// What a command says.
pub struct ParsedCommandView {
    pub command: Seq<char>,
    pub username: Option<Seq<char>>,
    pub param: Option<Seq<char>>,
}

impl<'a> View for ParsedCommand<'a> {
    type V = ParsedCommandView;

    open spec fn view(&self) -> ParsedCommandView {
        ParsedCommandView {
            command: self.command@,
            username: opt_text(self.username),
            param: opt_text(self.param),
        }
    }
}

/// A character with a meaning in regular expressions.
pub open spec fn is_meta(c: char) -> bool {
    c == '\\' || c == '.' || c == '+' || c == '*' || c == '?' || c == '(' || c == ')' || c == '|'
        || c == '[' || c == ']' || c == '{' || c == '}' || c == '^' || c == '$' || c == '#' || c
        == '&' || c == '-' || c == '~'
}

/// A text with a backslash before each character that has a meaning in regular
/// expressions.
pub open spec fn escaped(s: Seq<char>) -> Seq<char>
    decreases s.len(),
{
    if s.len() == 0 {
        Seq::empty()
    } else {
        let c = s.last();
        if is_meta(c) {
            escaped(s.drop_last()).push('\\').push(c)
        } else {
            escaped(s.drop_last()).push(c)
        }
    }
}

/// [`regex::escape`] puts a backslash before each character that has a meaning
/// in regular expressions.
#[verifier::external_body]
fn escape(text: &str) -> (r: String)
    ensures
        r@ == escaped(text@),
{
    regex::escape(text)
}

/// The pattern of commands for a bot with a given name.
pub open spec fn command_pattern(username: Option<Seq<char>>) -> Seq<char> {
    match username {
        Some(username) => "^/([a-z0-9_]+)(?:@("@ + escaped(username) + "))?(?:\\s+(.*))?$"@,
        None => "^/([a-z0-9_]+)(?:@([a-z0-9_]+))?(?:\\s+(.*))?$"@,
    }
}

/// The groups of a matched command: its name, the name of the bot and the
/// parameter. The second group is the parameter if there are only three.
pub open spec fn command_of(groups: Seq<Option<Seq<char>>>) -> ParsedCommandView
    recommends
        groups.len() > 1,
        groups[1] is Some,
{
    let last = if groups.len() == 4 {
        3int
    } else {
        2int
    };
    ParsedCommandView {
        command: groups[1]->0,
        username: if groups.len() == 4 {
            groups[2]
        } else {
            None
        },
        param: if last < groups.len() {
            groups[last]
        } else {
            None
        },
    }
}

impl<'a> ParsedCommand<'a> {
    /// Reads a command from what the groups matched.
    pub fn from_groups(groups: &Vec<Option<&'a str>>) -> (r: ParsedCommand<'a>)
        requires
            groups@.len() > 1,
            groups@[1] is Some,
        ensures
            r@ == command_of(group_views(groups@)),
    {
        let command = match groups[1] {
            Some(command) => command,
            None => "",
        };
        let username;
        let param;
        if groups.len() == 4 {
            username = groups[2];
            param = groups[3];
        } else {
            username = None;
            param = if groups.len() > 2 {
                groups[2]
            } else {
                None
            };
        }
        ParsedCommand { command, username, param }
    }
}

/// Recognises the commands for a bot.
#[derive(Debug)]
pub struct CommandParser {
    pattern: String,
}

impl View for CommandParser {
    type V = Seq<char>;

    /// The pattern of commands.
    closed spec fn view(&self) -> Seq<char> {
        self.pattern@
    }
}

/// What a text says as a command. Case does not matter, and the parameter may
/// hold several lines.
pub open spec fn parsed_command(pattern: Seq<char>, text: Seq<char>) -> Option<ParsedCommandView> {
    match pattern_captures(pattern, true, true, text, usize::BITS as int) {
        Some(groups) if groups.len() > 1 && groups[1] is Some => Some(command_of(groups)),
        _ => None,
    }
}

impl CommandParser {
    /// Recognises the commands for a bot with the given name.
    pub fn new(username: Option<&str>) -> (r: Self)
        ensures
            r@ == command_pattern(opt_text(username)),
    {
        let pattern = match username {
            Some(username) => {
                let mut s = "^/([a-z0-9_]+)(?:@(".to_owned();
                let name = escape(username);
                s.append(name.as_str());
                s.append("))?(?:\\s+(.*))?$");
                s
            },
            None => "^/([a-z0-9_]+)(?:@([a-z0-9_]+))?(?:\\s+(.*))?$".to_owned(),
        };
        CommandParser { pattern }
    }

    /// Reads a text as a command, if it is one.
    pub fn parse<'a>(&self, text: &'a str) -> (r: Option<ParsedCommand<'a>>)
        ensures
            match r {
                Some(c) => parsed_command(self@, text@) == Some(c@),
                None => parsed_command(self@, text@) is None,
            },
    {
        match captures(self.pattern.as_str(), true, true, text) {
            Some(groups) => {
                assert(groups@.len() > 1 ==> group_views(groups@)[1] == opt_text(groups@[1]));
                if groups.len() > 1 && groups[1].is_some() {
                    Some(ParsedCommand::from_groups(&groups))
                } else {
                    None
                }
            },
            None => None,
        }
    }
}

/// A command that the bot knows, and where it is offered.
#[derive(Debug, Clone, Copy)]
pub struct Command {
    pub name: &'static str,
    pub description: &'static str,
    pub group_admin: bool,
    pub group_member: bool,
    pub private_chat: bool,
    pub admin: bool,
}

/// The line that announces a command.
pub open spec fn command_line(name: Seq<char>, description: Seq<char>) -> Seq<char> {
    "/"@ + name + " – "@ + description + "\n"@
}

impl Command {
    /// The line that announces the command.
    pub fn to_text(&self) -> (s: String)
        ensures
            s@ == command_line(self.name@, self.description@),
    {
        let mut s = "/".to_owned();
        s.append(self.name);
        s.append(" – ");
        s.append(self.description);
        s.append("\n");
        s
    }
}

/// Where commands are offered.
#[derive(Debug, Clone, Copy, PartialEq, Eq, Structural)]
pub enum CommandScope {
    AllPrivateChats,
    AllGroupChats,
    AllChatAdministrators,
}

impl Command {
    /// The command is offered in the scope.
    pub open spec fn spec_offered(self, scope: CommandScope) -> bool {
        match scope {
            CommandScope::AllPrivateChats => self.private_chat,
            CommandScope::AllGroupChats => self.group_member,
            CommandScope::AllChatAdministrators => self.group_admin,
        }
    }

    /// Whether the command is offered in the scope.
    pub fn offered(&self, scope: CommandScope) -> (r: bool)
        ensures
            r == self.spec_offered(scope),
    {
        match scope {
            CommandScope::AllPrivateChats => self.private_chat,
            CommandScope::AllGroupChats => self.group_member,
            CommandScope::AllChatAdministrators => self.group_admin,
        }
    }
}

/// The commands that are offered in a scope, in their order.
pub fn commands_for(commands: &Vec<Command>, scope: CommandScope) -> (r: Vec<Command>)
    ensures
        r@ == commands@.filter(|c: Command| c.spec_offered(scope)),
{
    let ghost offered = |c: Command| c.spec_offered(scope);
    let mut r: Vec<Command> = Vec::new();
    let mut i: usize = 0;
    proof {
        reveal(Seq::filter);
        assert(commands@.take(0) =~= Seq::<Command>::empty());
    }
    while i < commands.len()
        invariant
            i <= commands@.len(),
            offered == (|c: Command| c.spec_offered(scope)),
            r@ == commands@.take(i as int).filter(offered),
        decreases commands@.len() - i,
    {
        proof {
            reveal(Seq::filter);
            assert(commands@.take(i + 1).drop_last() =~= commands@.take(i as int));
        }
        if commands[i].offered(scope) {
            r.push(commands[i]);
        }
        i = i + 1;
    }
    assert(commands@.take(commands@.len() as int) =~= commands@);
    r
}

/// A command has the name that the first group matched. With four groups the
/// second is the name of the bot and the third the parameter, else the second is
/// the parameter.
pub proof fn law_groups_make_a_command<'a>(groups: Vec<Option<&'a str>>, r: ParsedCommand<'a>)
    requires
        groups@.len() > 1,
        groups@[1] is Some,
        call_ensures(ParsedCommand::<'a>::from_groups, (&groups,), r),
    ensures
        r.command@ == groups@[1]->0@,
        groups@.len() == 4 ==> opt_text(r.username) == opt_text(groups@[2]) && opt_text(r.param)
            == opt_text(groups@[3]),
        groups@.len() != 4 ==> r.username is None,
        groups@.len() == 2 ==> r.param is None,
        groups@.len() == 3 || groups@.len() > 4 ==> opt_text(r.param) == opt_text(groups@[2]),
{
    let views = group_views(groups@);
    assert(views[1] == opt_text(groups@[1]));
    if groups@.len() > 2 {
        assert(views[2] == opt_text(groups@[2]));
    }
    if groups@.len() > 3 {
        assert(views[3] == opt_text(groups@[3]));
    }
}

/// A text is a command exactly if it matches the pattern of commands, in capital
/// letters or not and over several lines, and is then what the groups say.
pub proof fn law_matching_texts_are_commands<'a>(
    parser: &CommandParser,
    text: &'a str,
    r: Option<ParsedCommand<'a>>,
    groups: Vec<Option<&'a str>>,
    c: ParsedCommand<'a>,
)
    requires
        call_ensures(CommandParser::parse, (parser, text), r),
        pattern_captures(parser@, true, true, text@, usize::BITS as int) == Some(
            group_views(groups@),
        ),
        groups@.len() > 1,
        groups@[1] is Some,
        call_ensures(ParsedCommand::<'a>::from_groups, (&groups,), c),
    ensures
        r is Some && r->0@ == c@,
{
    assert(group_views(groups@)[1] == opt_text(groups@[1]));
}

/// What does not match the pattern is no command.
pub proof fn law_other_texts_are_no_commands<'a>(
    parser: &CommandParser,
    text: &'a str,
    r: Option<ParsedCommand<'a>>,
)
    requires
        call_ensures(CommandParser::parse, (parser, text), r),
        pattern_captures(parser@, true, true, text@, usize::BITS as int) is None,
    ensures
        r is None,
{
}

/// A command starts with a slash and its name. The name of a bot may follow, of
/// this bot if it has one, and then, after white space, a parameter.
pub proof fn law_commands_are_addressed(
    anyone: CommandParser,
    username: &str,
    own: CommandParser,
    name: Seq<char>,
    c: char,
)
    requires
        call_ensures(CommandParser::new, (None,), anyone),
        call_ensures(CommandParser::new, (Some(username),), own),
    ensures
        anyone@ == "^/([a-z0-9_]+)(?:@([a-z0-9_]+))?(?:\\s+(.*))?$"@,
        own@ == "^/([a-z0-9_]+)(?:@("@ + escaped(username@) + "))?(?:\\s+(.*))?$"@,
        escaped(Seq::empty()) == Seq::<char>::empty(),
        escaped(name.push(c)) == escaped(name) + if is_meta(c) {
            seq!['\\', c]
        } else {
            seq![c]
        },
{
    assert(name.push(c).drop_last() =~= name);
    if is_meta(c) {
        assert(escaped(name).push('\\').push(c) =~= escaped(name) + seq!['\\', c]);
    } else {
        assert(escaped(name).push(c) =~= escaped(name) + seq![c]);
    }
}

/// A command is announced in a line with its name and what it does.
pub proof fn law_command_is_announced(c: &Command, s: String)
    requires
        call_ensures(Command::to_text, (c,), s),
    ensures
        s@ == seq!['/'] + c.name@ + " – "@ + c.description@ + seq!['\n'],
{
    reveal_strlit("/");
    reveal_strlit("\n");
    assert("/"@ =~= seq!['/']);
    assert("\n"@ =~= seq!['\n']);
}

/// Each scope has its own word on whether a command is offered there.
pub proof fn law_scopes_are_told_apart(c: &Command, private: bool, group: bool, admins: bool)
    requires
        call_ensures(Command::offered, (c, CommandScope::AllPrivateChats), private),
        call_ensures(Command::offered, (c, CommandScope::AllGroupChats), group),
        call_ensures(Command::offered, (c, CommandScope::AllChatAdministrators), admins),
    ensures
        private == c.private_chat,
        group == c.group_member,
        admins == c.group_admin,
{
}

/// Of the commands of a list, those that are offered in a scope are given, in
/// their order: a further one is added behind the others if it is offered.
pub proof fn law_offered_commands_are_given(
    less: Vec<Command>,
    last: Command,
    more: Vec<Command>,
    scope: CommandScope,
    r: Vec<Command>,
    longer: Vec<Command>,
    offered: bool,
)
    requires
        more@ == less@.push(last),
        call_ensures(commands_for, (&less, scope), r),
        call_ensures(commands_for, (&more, scope), longer),
        call_ensures(Command::offered, (&last, scope), offered),
    ensures
        less@.len() == 0 ==> r@.len() == 0,
        longer@ == if offered {
            r@.push(last)
        } else {
            r@
        },
{
    reveal(Seq::filter);
    assert(more@.drop_last() =~= less@);
}

/// What matches without a name is no command.
pub proof fn law_nameless_texts_are_no_commands<'a>(
    parser: &CommandParser,
    text: &'a str,
    r: Option<ParsedCommand<'a>>,
    groups: Seq<Option<Seq<char>>>,
)
    requires
        call_ensures(CommandParser::parse, (parser, text), r),
        pattern_captures(parser@, true, true, text@, usize::BITS as int) == Some(groups),
        groups.len() <= 1 || groups[1] is None,
    ensures
        r is None,
{
}

} // verus!
