//! The help message.

use vstd::prelude::*;
use vstd::string::*;

use super::CommandKind;
use crate::message_builder::{Error as MessageError, MessageEntity};
use crate::rich_text::{render, Piece};

verus! {

use crate::command::command_line;
use crate::message_builder::entity_views;
use crate::rich_text::{entities_of, fits, piece_views, text_of, PieceView};
use crate::text::opt_text;

pub const NAME: &'static str = "🤖 Allris-Bot";

pub const INTRO: &'static str = "\nDieser Bot benachrichtigt dich, wenn im ";

pub const SYSTEM_URL: &'static str = "https://www.bonn.sitzung-online.de";

pub const SYSTEM: &'static str = "Ratsinformationssystem der Stadt Bonn";

pub const INTRO_MIDDLE: &'static str = " neue Vorlagen veröffentlicht werden – lege dazu ";

pub const INTRO_RULES: &'static str = "Regeln";

pub const INTRO_END: &'static str = " fest, welche Vorlagen du erhalten willst.\n\n";

pub const RULES_TITLE: &'static str = "🔧 Regeln verwalten";

pub const RULES_DESCRIPTION: &'static str =
    "Du erhältst Benachrichtungen für alle Vorlagen, auf die mindestens eine Regel zutrifft.";

pub const TARGET_TITLE: &'static str = "📬 Ziel einstellen";

pub const TARGET_DESCRIPTION: &'static str =
    "Der Bot kann Benachrichtigungen hier im Chat oder in einem deiner Kanäle senden.";

pub const MISC_TITLE: &'static str = "🆘 Sonstiges";

pub const MISC_HELP: &'static str = " – Zeige diese Hilfe an\n";

pub const REGEX_TITLE: &'static str = "📚 Reguläre Ausdrücke (Regex)";

pub const REGEX_TEXT: &'static str =
    "\nBeim Erstellen einer Regel kannst du festlegen, dass ein bestimmtes Merkmal ein sogenanntes Regex-Pattern erfüllen muss. Gib dort einfach den Text ein, nach dem du filtern möchtest – das funktioniert in den meisten Fällen zuverlässig. Falls du komplexere Muster brauchst, helfen dir ";

pub const REGEX_URL: &'static str = "https://regex101.com";

pub const REGEX_SITE: &'static str = "regex101.com";

pub const REGEX_END: &'static str =
    " oder ChatGPT beim Ausprobieren und Erlernen von regulären Ausdrücken.\n\n";

pub const DISCLAIMER_TITLE: &'static str = "⚖\u{fe0f} Hinweis";

pub const DISCLAIMER: &'static str =
    "\nDieser Bot ist ein rein privates, nicht-kommerzielles Projekt zur automatischen Benachrichtigung über neue Vorlagen aus dem ALLRIS®-System der Stadt Bonn. Er steht weder in Verbindung zur Firma CC e-gov GmbH noch zur Stadt Bonn. \n";

pub const NO_WARRANTY: &'static str =
    "Für Vollständigkeit, Richtigkeit oder Aktualität der bereitgestellten Informationen wird keine Gewähr übernommen.";

pub const ABOUT_TITLE: &'static str = "👨\u{200d}💻 Mehr Infos & Kontakt";

pub const ABOUT: &'static str = "\nDer Quellcode dieses Bots steht unter der Lizenz";

pub const LICENSE_URL: &'static str = "https://www.gnu.org/licenses/agpl-3.0.html.en";

pub const LICENSE: &'static str = "GNU AGPL v3";

pub const ABOUT_MIDDLE: &'static str = " zur Verfügung: ";

pub const ABOUT_VERSION: &'static str = " (Version ";

pub const ABOUT_CONTACT: &'static str =
    "\n\nFragen, Feedback oder Ideen? Schreib mir gern: @";

/// The line that announces a command.
pub open spec fn line_of(kind: CommandKind) -> Seq<char> {
    command_line(kind.spec_name(), kind.spec_description())
}

/// What the bot does.
pub open spec fn intro_paragraph() -> Seq<PieceView> {
    seq![
        PieceView::bold(NAME@),
        PieceView::plain(INTRO@),
        PieceView::link(SYSTEM_URL@, SYSTEM@),
        PieceView::plain(INTRO_MIDDLE@),
        PieceView::bold(INTRO_RULES@),
        PieceView::plain(INTRO_END@),
    ]
}

/// The commands for rules.
pub open spec fn rules_paragraph() -> Seq<PieceView> {
    seq![
        PieceView::bold(RULES_TITLE@),
        PieceView::plain("\n"@),
        PieceView::italic(RULES_DESCRIPTION@),
        PieceView::plain(
            "\n"@ + line_of(CommandKind::NewRule) + line_of(CommandKind::Rules) + line_of(
                CommandKind::RemoveRule,
            ) + line_of(CommandKind::RemoveAllRules) + "\n"@,
        ),
    ]
}

/// The command for the target.
pub open spec fn target_paragraph() -> Seq<PieceView> {
    seq![
        PieceView::bold(TARGET_TITLE@),
        PieceView::plain("\n"@),
        PieceView::italic(TARGET_DESCRIPTION@),
        PieceView::plain("\n"@ + line_of(CommandKind::Target) + "\n"@),
    ]
}

/// The other commands.
pub open spec fn miscellaneous_paragraph() -> Seq<PieceView> {
    seq![
        PieceView::bold(MISC_TITLE@),
        PieceView::plain(
            "\n"@ + line_of(CommandKind::Cancel) + "/"@ + CommandKind::Help.spec_name()
                + " oder /"@ + CommandKind::Start.spec_name() + MISC_HELP@ + line_of(
                CommandKind::Privacy,
            ) + "\n"@,
        ),
    ]
}

/// What a pattern is.
pub open spec fn regex_paragraph() -> Seq<PieceView> {
    seq![
        PieceView::bold(REGEX_TITLE@),
        PieceView::plain(REGEX_TEXT@),
        PieceView::link(REGEX_URL@, REGEX_SITE@),
        PieceView::plain(REGEX_END@),
    ]
}

/// What the bot is not.
pub open spec fn disclaimer_paragraph() -> Seq<PieceView> {
    seq![
        PieceView::bold(DISCLAIMER_TITLE@),
        PieceView::plain(DISCLAIMER@),
        PieceView::bold(NO_WARRANTY@),
        PieceView::plain("\n\n"@),
    ]
}

/// Where the bot comes from, and whom to ask.
pub open spec fn about_paragraph(
    owner: Option<Seq<char>>,
    repository: Seq<char>,
    version: Seq<char>,
) -> Seq<PieceView> {
    seq![
        PieceView::bold(ABOUT_TITLE@),
        PieceView::plain(ABOUT@),
        PieceView::link(LICENSE_URL@, LICENSE@),
        PieceView::plain(
            ABOUT_MIDDLE@ + repository + ABOUT_VERSION@ + version + ")"@ + match owner {
                Some(owner) => ABOUT_CONTACT@ + owner,
                None => Seq::empty(),
            },
        ),
    ]
}

/// The help message. The target cannot be set in groups.
pub open spec fn help_pieces(
    group: bool,
    owner: Option<Seq<char>>,
    repository: Seq<char>,
    version: Seq<char>,
) -> Seq<PieceView> {
    intro_paragraph() + rules_paragraph() + (if group {
        Seq::empty()
    } else {
        target_paragraph()
    }) + miscellaneous_paragraph() + regex_paragraph() + disclaimer_paragraph() + about_paragraph(
        owner,
        repository,
        version,
    )
}

fn push_line(s: &mut String, kind: CommandKind)
    ensures
        final(s)@ == old(s)@ + line_of(kind),
{
    let line = kind.command().to_text();
    s.append(line.as_str());
}

fn push_intro(pieces: &mut Vec<Piece>)
    ensures
        piece_views(final(pieces)@) == piece_views(old(pieces)@) + intro_paragraph(),
{
    pieces.push(Piece::bold(NAME));
    pieces.push(Piece::plain(INTRO));
    pieces.push(Piece::link(SYSTEM_URL, SYSTEM));
    pieces.push(Piece::plain(INTRO_MIDDLE));
    pieces.push(Piece::bold(INTRO_RULES));
    pieces.push(Piece::plain(INTRO_END));
    assert(piece_views(pieces@) =~= piece_views(old(pieces)@) + intro_paragraph());
}

fn push_rules_help(pieces: &mut Vec<Piece>)
    ensures
        piece_views(final(pieces)@) == piece_views(old(pieces)@) + rules_paragraph(),
{
    pieces.push(Piece::bold(RULES_TITLE));
    pieces.push(Piece::plain("\n"));
    pieces.push(Piece::italic(RULES_DESCRIPTION));
    let mut lines = "\n".to_owned();
    push_line(&mut lines, CommandKind::NewRule);
    push_line(&mut lines, CommandKind::Rules);
    push_line(&mut lines, CommandKind::RemoveRule);
    push_line(&mut lines, CommandKind::RemoveAllRules);
    lines.append("\n");
    pieces.push(Piece::plain(lines.as_str()));
    assert(piece_views(pieces@) =~= piece_views(old(pieces)@) + rules_paragraph());
}

fn push_target_help(pieces: &mut Vec<Piece>)
    ensures
        piece_views(final(pieces)@) == piece_views(old(pieces)@) + target_paragraph(),
{
    pieces.push(Piece::bold(TARGET_TITLE));
    pieces.push(Piece::plain("\n"));
    pieces.push(Piece::italic(TARGET_DESCRIPTION));
    let mut lines = "\n".to_owned();
    push_line(&mut lines, CommandKind::Target);
    lines.append("\n");
    pieces.push(Piece::plain(lines.as_str()));
    assert(piece_views(pieces@) =~= piece_views(old(pieces)@) + target_paragraph());
}

fn push_miscellaneous(pieces: &mut Vec<Piece>)
    ensures
        piece_views(final(pieces)@) == piece_views(old(pieces)@) + miscellaneous_paragraph(),
{
    pieces.push(Piece::bold(MISC_TITLE));
    let mut lines = "\n".to_owned();
    push_line(&mut lines, CommandKind::Cancel);
    lines.append("/");
    lines.append(CommandKind::Help.name());
    lines.append(" oder /");
    lines.append(CommandKind::Start.name());
    lines.append(MISC_HELP);
    push_line(&mut lines, CommandKind::Privacy);
    lines.append("\n");
    pieces.push(Piece::plain(lines.as_str()));
    assert(piece_views(pieces@) =~= piece_views(old(pieces)@) + miscellaneous_paragraph());
}

fn push_regex_help(pieces: &mut Vec<Piece>)
    ensures
        piece_views(final(pieces)@) == piece_views(old(pieces)@) + regex_paragraph(),
{
    pieces.push(Piece::bold(REGEX_TITLE));
    pieces.push(Piece::plain(REGEX_TEXT));
    pieces.push(Piece::link(REGEX_URL, REGEX_SITE));
    pieces.push(Piece::plain(REGEX_END));
    assert(piece_views(pieces@) =~= piece_views(old(pieces)@) + regex_paragraph());
}

fn push_disclaimer(pieces: &mut Vec<Piece>)
    ensures
        piece_views(final(pieces)@) == piece_views(old(pieces)@) + disclaimer_paragraph(),
{
    pieces.push(Piece::bold(DISCLAIMER_TITLE));
    pieces.push(Piece::plain(DISCLAIMER));
    pieces.push(Piece::bold(NO_WARRANTY));
    pieces.push(Piece::plain("\n\n"));
    assert(piece_views(pieces@) =~= piece_views(old(pieces)@) + disclaimer_paragraph());
}

fn push_about(pieces: &mut Vec<Piece>, owner: Option<&str>, repository: &str, version: &str)
    ensures
        piece_views(final(pieces)@) == piece_views(old(pieces)@) + about_paragraph(
            opt_text(owner),
            repository@,
            version@,
        ),
{
    pieces.push(Piece::bold(ABOUT_TITLE));
    pieces.push(Piece::plain(ABOUT));
    pieces.push(Piece::link(LICENSE_URL, LICENSE));
    let mut s = ABOUT_MIDDLE.to_owned();
    s.append(repository);
    s.append(ABOUT_VERSION);
    s.append(version);
    s.append(")");
    let ghost known = s@;
    if let Some(owner) = owner {
        s.append(ABOUT_CONTACT);
        s.append(owner);
        assert(s@ =~= known + (ABOUT_CONTACT@ + owner@));
    } else {
        assert(s@ =~= known + Seq::empty());
    }
    pieces.push(Piece::plain(s.as_str()));
    assert(piece_views(pieces@) =~= piece_views(old(pieces)@) + about_paragraph(
        opt_text(owner),
        repository@,
        version@,
    ));
}

/// The help message, unless the owner's name or the address of the repository
/// makes it too long.
pub fn message(group: bool, owner: Option<&str>, repository: &str, version: &str) -> (r: Result<
    (String, Vec<MessageEntity>),
    MessageError,
>)
    ensures
        ({
            let pieces = help_pieces(group, opt_text(owner), repository@, version@);
            match r {
                Ok(m) => {
                    &&& fits(pieces)
                    &&& m.0@ == text_of(pieces)
                    &&& entity_views(m.1@) == entities_of(pieces)
                },
                Err(_) => !fits(pieces),
            }
        }),
{
    let mut pieces: Vec<Piece> = Vec::new();
    push_intro(&mut pieces);
    push_rules_help(&mut pieces);
    if !group {
        push_target_help(&mut pieces);
    }
    push_miscellaneous(&mut pieces);
    push_regex_help(&mut pieces);
    push_disclaimer(&mut pieces);
    push_about(&mut pieces, owner, repository, version);
    assert(piece_views(pieces@) =~= help_pieces(group, opt_text(owner), repository@, version@));
    render(&pieces)
}

/// A text stands in another one.
pub open spec fn occurs(text: Seq<char>, part: Seq<char>) -> bool {
    exists|i: int|
        0 <= i && i + part.len() <= text.len() && #[trigger] text.subrange(i, i + part.len())
            == part
}

/// A text stands in itself.
pub proof fn lemma_occurs_whole(text: Seq<char>)
    ensures
        occurs(text, text),
{
    let i: int = 0;
    assert(text.subrange(i, i + text.len()) =~= text);
}

/// The text of a piece between two lists of pieces stands between theirs.
pub proof fn lemma_text_of_around(first: PieceView, middle: Seq<PieceView>, last: PieceView)
    ensures
        text_of(seq![first] + middle + seq![last]) == first.text + text_of(middle) + last.text,
        text_of(seq![first]) == first.text,
{
    lemma_text_of_concat(seq![first] + middle, seq![last]);
    lemma_text_of_concat(seq![first], middle);
    assert(seq![first].drop_last() =~= Seq::<PieceView>::empty());
    assert(seq![last].drop_last() =~= Seq::<PieceView>::empty());
    assert(text_of(Seq::<PieceView>::empty()) + first.text =~= first.text);
    assert(text_of(Seq::<PieceView>::empty()) + last.text =~= last.text);
    assert(text_of(seq![first]) == first.text);
    assert(text_of(seq![last]) == last.text);
}

/// What stands between two texts stands in all three together.
pub proof fn lemma_occurs_between(before: Seq<char>, part: Seq<char>, after: Seq<char>)
    ensures
        occurs(before + part + after, part),
{
    let text = before + part + after;
    let i = before.len() as int;
    assert(text.subrange(i, i + part.len()) =~= part);
}

/// What stands in a piece stands in the message.
pub proof fn lemma_occurs_in_pieces(pieces: Seq<PieceView>, k: int, part: Seq<char>)
    requires
        0 <= k < pieces.len(),
        occurs(pieces[k].text, part),
    ensures
        occurs(text_of(pieces), part),
    decreases pieces.len(),
{
    let rest = pieces.drop_last();
    let text = text_of(pieces);
    if k == pieces.len() - 1 {
        let last = pieces[k].text;
        let i = choose|i: int|
            0 <= i && i + part.len() <= last.len() && #[trigger] last.subrange(i, i + part.len())
                == part;
        let n = text_of(rest).len() as int;
        assert(text.subrange(n + i, n + i + part.len()) =~= last.subrange(i, i + part.len()));
    } else {
        lemma_occurs_in_pieces(rest, k, part);
        let start = text_of(rest);
        let i = choose|i: int|
            0 <= i && i + part.len() <= start.len() && #[trigger] start.subrange(i, i + part.len())
                == part;
        assert(text.subrange(i, i + part.len()) =~= start.subrange(i, i + part.len()));
    }
}

/// The text of pieces one behind the other is that of the first ones and then
/// that of the others.
pub proof fn lemma_text_of_concat(a: Seq<PieceView>, b: Seq<PieceView>)
    ensures
        text_of(a + b) == text_of(a) + text_of(b),
    decreases b.len(),
{
    if b.len() == 0 {
        assert(a + b =~= a);
        assert(text_of(a) + text_of(b) =~= text_of(a));
    } else {
        assert((a + b).drop_last() =~= a + b.drop_last());
        lemma_text_of_concat(a, b.drop_last());
        assert(text_of(a + b) =~= text_of(a) + text_of(b));
    }
}

/// The help announces every command that there is, each in a line of its own;
/// the help itself, and `/start` that shows it, share one. In groups the target
/// is left out, as it cannot be set there.
pub proof fn law_help_names_commands(
    group: bool,
    owner: Option<&str>,
    repository: &str,
    version: &str,
    m: (String, Vec<MessageEntity>),
    kind: CommandKind,
    command: crate::command::Command,
    line: String,
)
    requires
        call_ensures(message, (group, owner, repository, version), Ok(m)),
        call_ensures(CommandKind::command, (&kind,), command),
        call_ensures(crate::command::Command::to_text, (&command,), line),
    ensures
        !(kind is Help) && !(kind is Start) && !(group && kind is Target) ==> occurs(m.0@, line@),
        occurs(m.0@, "/"@ + "hilfe"@ + " oder /"@ + "start"@),
        occurs(m.0@, repository@),
        occurs(m.0@, version@),
        owner matches Some(o) ==> occurs(m.0@, "@"@ + o@),
{
    match kind {
        CommandKind::Target => {
            if !group {
                lemma_target_line();
                lemma_occurs_in_help(
                    group,
                    opt_text(owner),
                    repository@,
                    version@,
                    line_of(kind),
                );
            }
        },
        CommandKind::Cancel => {
            lemma_other_lines();
            lemma_occurs_in_help(group, opt_text(owner), repository@, version@, line_of(kind));
        },
        CommandKind::Privacy => {
            lemma_other_lines();
            lemma_occurs_in_help(group, opt_text(owner), repository@, version@, line_of(kind));
        },
        CommandKind::Help => {},
        CommandKind::Start => {},
        _ => {
            lemma_rule_lines(kind);
            lemma_occurs_in_help(group, opt_text(owner), repository@, version@, line_of(kind));
        },
    }
    let both = "/"@ + "hilfe"@ + " oder /"@ + "start"@;
    lemma_other_lines();
    lemma_occurs_in_help(group, opt_text(owner), repository@, version@, both);
    lemma_about_names(opt_text(owner), repository@, version@);
    lemma_occurs_in_help(group, opt_text(owner), repository@, version@, repository@);
    lemma_occurs_in_help(group, opt_text(owner), repository@, version@, version@);
    if let Some(o) = owner {
        lemma_occurs_in_help(group, opt_text(owner), repository@, version@, "@"@ + o@);
    }
}

/// What stands in one of the paragraphs stands in the help.
proof fn lemma_occurs_in_help(
    group: bool,
    owner: Option<Seq<char>>,
    repository: Seq<char>,
    version: Seq<char>,
    part: Seq<char>,
)
    requires
        occurs(rules_paragraph()[3].text, part) || (!group && occurs(
            target_paragraph()[3].text,
            part,
        )) || occurs(miscellaneous_paragraph()[1].text, part) || occurs(
            about_paragraph(owner, repository, version)[3].text,
            part,
        ),
    ensures
        occurs(text_of(help_pieces(group, owner, repository, version)), part),
{
    let pieces = help_pieces(group, owner, repository, version);
    let a = intro_paragraph().len() as int;
    let b = a + rules_paragraph().len();
    let c = b + if group {
        0
    } else {
        target_paragraph().len() as int
    };
    let z = pieces.len() - 1;
    assert(pieces[a + 3] == rules_paragraph()[3]);
    assert(!group ==> pieces[b + 3] == target_paragraph()[3]);
    assert(pieces[c + 1] == miscellaneous_paragraph()[1]);
    assert(pieces[z] == about_paragraph(owner, repository, version)[3]);
    if occurs(rules_paragraph()[3].text, part) {
        lemma_occurs_in_pieces(pieces, a + 3, part);
    } else if !group && occurs(target_paragraph()[3].text, part) {
        lemma_occurs_in_pieces(pieces, b + 3, part);
    } else if occurs(miscellaneous_paragraph()[1].text, part) {
        lemma_occurs_in_pieces(pieces, c + 1, part);
    } else {
        lemma_occurs_in_pieces(pieces, z, part);
    }
}

proof fn lemma_rule_lines(kind: CommandKind)
    requires
        kind is NewRule || kind is Rules || kind is RemoveRule || kind is RemoveAllRules,
    ensures
        occurs(rules_paragraph()[3].text, line_of(kind)),
{
    let text = rules_paragraph()[3].text;
    let new = line_of(CommandKind::NewRule);
    let list = line_of(CommandKind::Rules);
    let remove = line_of(CommandKind::RemoveRule);
    let all = line_of(CommandKind::RemoveAllRules);
    let nl = "\n"@;
    assert(text == nl + new + list + remove + all + nl);
    if kind is NewRule {
        lemma_occurs_between(nl, new, list + remove + all + nl);
        assert(text =~= nl + new + (list + remove + all + nl));
    } else if kind is Rules {
        lemma_occurs_between(nl + new, list, remove + all + nl);
        assert(text =~= nl + new + list + (remove + all + nl));
    } else if kind is RemoveRule {
        lemma_occurs_between(nl + new + list, remove, all + nl);
        assert(text =~= nl + new + list + remove + (all + nl));
    } else {
        lemma_occurs_between(nl + new + list + remove, all, nl);
    }
}

proof fn lemma_target_line()
    ensures
        occurs(target_paragraph()[3].text, line_of(CommandKind::Target)),
{
    lemma_occurs_between("\n"@, line_of(CommandKind::Target), "\n"@);
}

proof fn lemma_other_lines()
    ensures
        occurs(miscellaneous_paragraph()[1].text, line_of(CommandKind::Cancel)),
        occurs(miscellaneous_paragraph()[1].text, line_of(CommandKind::Privacy)),
        occurs(miscellaneous_paragraph()[1].text, "/"@ + "hilfe"@ + " oder /"@ + "start"@),
{
    let text = miscellaneous_paragraph()[1].text;
    let nl = "\n"@;
    let cancel = line_of(CommandKind::Cancel);
    let privacy = line_of(CommandKind::Privacy);
    let both = "/"@ + "hilfe"@ + " oder /"@ + "start"@;
    assert(text =~= nl + cancel + (both + MISC_HELP@ + privacy + nl));
    lemma_occurs_between(nl, cancel, both + MISC_HELP@ + privacy + nl);
    assert(text =~= nl + cancel + both + (MISC_HELP@ + privacy + nl));
    lemma_occurs_between(nl + cancel, both, MISC_HELP@ + privacy + nl);
    assert(text =~= nl + cancel + both + MISC_HELP@ + privacy + nl);
    lemma_occurs_between(nl + cancel + both + MISC_HELP@, privacy, nl);
}

proof fn lemma_about_names(owner: Option<Seq<char>>, repository: Seq<char>, version: Seq<char>)
    ensures
        occurs(about_paragraph(owner, repository, version)[3].text, repository),
        occurs(about_paragraph(owner, repository, version)[3].text, version),
        owner matches Some(o) ==> occurs(
            about_paragraph(owner, repository, version)[3].text,
            "@"@ + o,
        ),
{
    let text = about_paragraph(owner, repository, version)[3].text;
    let contact = match owner {
        Some(o) => ABOUT_CONTACT@ + o,
        None => Seq::empty(),
    };
    let known = ABOUT_MIDDLE@ + repository + ABOUT_VERSION@ + version + ")"@;
    assert(text == known + contact);
    let end = ABOUT_VERSION@ + version + ")"@ + contact;
    assert(text =~= ABOUT_MIDDLE@ + repository + end);
    lemma_occurs_between(ABOUT_MIDDLE@, repository, end);
    assert(text =~= ABOUT_MIDDLE@ + repository + ABOUT_VERSION@ + version + (")"@ + contact));
    lemma_occurs_between(ABOUT_MIDDLE@ + repository + ABOUT_VERSION@, version, ")"@ + contact);
    if let Some(o) = owner {
        reveal_strlit("\n\nFragen, Feedback oder Ideen? Schreib mir gern: @");
        reveal_strlit("@");
        let n = ABOUT_CONTACT@.len() as int;
        let start = known + ABOUT_CONTACT@.take(n - 1);
        assert(ABOUT_CONTACT@ =~= ABOUT_CONTACT@.take(n - 1) + "@"@);
        assert(text =~= start + ("@"@ + o) + Seq::empty());
        lemma_occurs_between(start, "@"@ + o, Seq::empty());
    }
}

/// In a group the help is the same, but for what it says of the target.
pub proof fn law_help_in_groups(
    owner: Option<&str>,
    repository: &str,
    version: &str,
    private: (String, Vec<MessageEntity>),
    group: (String, Vec<MessageEntity>),
) -> (k: (int, int))
    requires
        call_ensures(message, (false, owner, repository, version), Ok(private)),
        call_ensures(message, (true, owner, repository, version), Ok(group)),
    ensures
        0 <= k.0 < k.1 <= private.0@.len(),
        group.0@ == private.0@.take(k.0) + private.0@.skip(k.1),
        occurs(private.0@.subrange(k.0, k.1), "/ziel"@),
{
    let first = intro_paragraph() + rules_paragraph();
    let middle = target_paragraph();
    let last = miscellaneous_paragraph() + regex_paragraph() + disclaimer_paragraph()
        + about_paragraph(opt_text(owner), repository@, version@);
    assert(help_pieces(false, opt_text(owner), repository@, version@) =~= first + middle + last);
    assert(help_pieces(true, opt_text(owner), repository@, version@) =~= first + last);
    lemma_text_of_concat(first + middle, last);
    lemma_text_of_concat(first, middle);
    lemma_text_of_concat(first, last);
    let k0 = text_of(first).len() as int;
    let k1 = k0 + text_of(middle).len();
    assert(private.0@.take(k0) =~= text_of(first));
    assert(private.0@.skip(k1) =~= text_of(last));
    assert(private.0@.subrange(k0, k1) =~= text_of(middle));
    reveal_strlit("/ziel");
    reveal_strlit("/");
    reveal_strlit("ziel");
    assert("/ziel"@ =~= "/"@ + "ziel"@);
    let line = line_of(CommandKind::Target);
    let rest = " – "@ + CommandKind::Target.spec_description() + "\n"@;
    lemma_occurs_between("\n"@, "/ziel"@, rest + "\n"@);
    assert(middle[3].text =~= "\n"@ + "/ziel"@ + (rest + "\n"@));
    lemma_occurs_in_pieces(middle, 3, "/ziel"@);
    (k0, k1)
}

/// The help links to the council's system, to a site about patterns, and to the
/// licence, and marks what the bot is called.
pub proof fn law_help_has_links(
    group: bool,
    owner: Option<&str>,
    repository: &str,
    version: &str,
    m: (String, Vec<MessageEntity>),
) -> (k: (int, int, int, int))
    requires
        call_ensures(message, (group, owner, repository, version), Ok(m)),
    ensures
        0 <= k.0 < m.1@.len() && m.1@[k.0].type_field
            == crate::message_builder::MessageEntityType::Bold && m.1@[k.0].offset == 0,
        0 <= k.1 < m.1@.len() && m.1@[k.1].url is Some && m.1@[k.1].url->0@
            == "https://www.bonn.sitzung-online.de"@,
        0 <= k.2 < m.1@.len() && m.1@[k.2].url is Some && m.1@[k.2].url->0@
            == "https://regex101.com"@,
        0 <= k.3 < m.1@.len() && m.1@[k.3].url is Some && m.1@[k.3].url->0@
            == "https://www.gnu.org/licenses/agpl-3.0.html.en"@,
{
    let pieces = help_pieces(group, opt_text(owner), repository@, version@);
    let n = pieces.len() as int;
    reveal_strlit("🤖 Allris-Bot");
    reveal_strlit("Ratsinformationssystem der Stadt Bonn");
    reveal_strlit("regex101.com");
    reveal_strlit("GNU AGPL v3");
    assert(pieces[0] == intro_paragraph()[0]);
    assert(pieces[2] == intro_paragraph()[2]);
    assert(pieces[n - 10] == regex_paragraph()[2]);
    assert(pieces[n - 2] == about_paragraph(opt_text(owner), repository@, version@)[2]);
    let a = crate::rich_text::lemma_piece_is_marked(pieces, 0);
    let b = crate::rich_text::lemma_piece_is_marked(pieces, 2);
    let c = crate::rich_text::lemma_piece_is_marked(pieces, n - 10);
    let d = crate::rich_text::lemma_piece_is_marked(pieces, n - 2);
    let marks = entity_views(m.1@);
    assert(marks.len() == m.1@.len());
    assert(pieces.take(0) =~= Seq::<PieceView>::empty());
    assert(marks[a] == m.1@[a]@);
    assert(marks[b] == m.1@[b]@);
    assert(marks[c] == m.1@[c]@);
    assert(marks[d] == m.1@[d]@);
    (a, b, c, d)
}

} // verus!
