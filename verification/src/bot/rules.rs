//! Shows the rules of a chat.

use vstd::prelude::*;
use vstd::string::*;

use super::{plan, DialogueWrite, Plan};
use crate::channel::SelectedChannel;
use crate::keyboard::ReplyMarkup;
use crate::message_builder::Error as MessageError;
use crate::rich_text::Piece;
use crate::text::decimal_string;
use crate::types::Filter;

verus! {

use super::{planned, WriteView};
use crate::channel::{opt_channel, selection_accusative, showable, ChannelView};
use crate::keyboard::MarkupView;
use crate::rich_text::{piece_views, PieceView};
use crate::text::decimal;
use crate::types::{filter_text, filter_views, ConditionView};

pub const NO_RULES: &'static str = "Es sind keine Regeln für ";

pub const NO_RULES_END: &'static str = " aktiv.";

pub const RULES: &'static str = "Zur Zeit sind die folgenden Regeln für ";

pub const RULES_END: &'static str = " aktiv:\n\n";

/// What a rule is called by its place in the list.
pub open spec fn rule_name(i: int) -> Seq<char> {
    "Regel "@ + decimal((i + 1) as nat)
}

/// What a rule is called by its place in the list.
pub fn name_of_rule(i: usize) -> (s: String)
    requires
        i < usize::MAX,
    ensures
        s@ == rule_name(i as int),
{
    let mut s = "Regel ".to_owned();
    let n = decimal_string(i as u64 + 1);
    s.append(n.as_str());
    s
}

/// The rules one after the other, each under its name.
pub open spec fn rule_list(filters: Seq<Seq<ConditionView>>) -> Seq<PieceView>
    decreases filters.len(),
{
    if filters.len() == 0 {
        Seq::empty()
    } else {
        rule_list(filters.drop_last()) + seq![
            PieceView::bold(rule_name(filters.len() - 1)),
            PieceView::plain("\n"@ + filter_text(filters.last()) + "\n"@),
        ]
    }
}

/// Appends the rules, each under its name.
pub fn push_rules(pieces: &mut Vec<Piece>, filters: &Vec<Filter>)
    ensures
        piece_views(final(pieces)@) == piece_views(old(pieces)@) + rule_list(
            filter_views(filters@),
        ),
{
    let ghost all = filter_views(filters@);
    let ghost start = piece_views(pieces@);
    let mut i: usize = 0;
    assert(all.take(0) =~= Seq::<Seq<ConditionView>>::empty());
    assert(start + rule_list(all.take(0)) =~= start);
    while i < filters.len()
        invariant
            i <= filters@.len(),
            all == filter_views(filters@),
            piece_views(pieces@) == start + rule_list(all.take(i as int)),
        decreases filters@.len() - i,
    {
        let ghost before = pieces@;
        let ghost shown = all.take(i + 1);
        assert(shown.drop_last() =~= all.take(i as int));
        assert(shown.last() == filters@[i as int]@);
        let name = name_of_rule(i);
        let mut body = "\n".to_owned();
        let text = filters[i].to_text();
        body.append(text.as_str());
        body.append("\n");
        pieces.push(Piece::bold(name.as_str()));
        pieces.push(Piece::plain(body.as_str()));
        proof {
            let title = PieceView::bold(rule_name(i as int));
            let rest = PieceView::plain("\n"@ + filter_text(shown.last()) + "\n"@);
            assert(piece_views(pieces@) =~= piece_views(before).push(title).push(rest));
            assert(rule_list(shown) == rule_list(shown.drop_last()) + seq![title, rest]);
            assert(piece_views(pieces@) =~= start + rule_list(shown));
        }
        i = i + 1;
    }
    assert(all.take(all.len() as int) =~= all);
}

/// What is shown for the rules of a chat.
pub open spec fn shown_rules(
    channel: Option<ChannelView>,
    filters: Seq<Seq<ConditionView>>,
) -> Seq<PieceView> {
    let target = selection_accusative(channel);
    if filters.len() == 0 {
        seq![PieceView::plain(NO_RULES@)] + target + seq![PieceView::plain(NO_RULES_END@)]
    } else {
        seq![PieceView::plain(RULES@)] + target + seq![PieceView::plain(RULES_END@)] + rule_list(
            filters,
        )
    }
}

/// Shows the rules of the selected chat.
pub fn handle_command(channel: &Option<SelectedChannel>, filters: &Vec<Filter>) -> (r: Result<
    Plan,
    MessageError,
>)
    requires
        showable(opt_channel(*channel)),
    ensures
        planned(
            r,
            WriteView::Keep,
            shown_rules(opt_channel(*channel), filter_views(filters@)),
            Some(MarkupView::RemoveKeyboard),
        ),
{
    let mut target = SelectedChannel::chat_selection_accusative(channel);
    let ghost target_views = piece_views(target@);
    let ghost target_pieces = target@;
    let mut pieces: Vec<Piece> = Vec::new();
    if filters.len() == 0 {
        pieces.push(Piece::plain(NO_RULES));
        pieces.append(&mut target);
        pieces.push(Piece::plain(NO_RULES_END));
    } else {
        pieces.push(Piece::plain(RULES));
        pieces.append(&mut target);
        pieces.push(Piece::plain(RULES_END));
        assert(piece_views(pieces@) =~= seq![PieceView::plain(RULES@)] + target_views + seq![
            PieceView::plain(RULES_END@),
        ]);
        push_rules(&mut pieces, filters);
    }
    assert(piece_views(pieces@) =~= shown_rules(opt_channel(*channel), filter_views(filters@)));
    plan(DialogueWrite::Keep, pieces, Some(ReplyMarkup::RemoveKeyboard))
}

/// A rule is named by its place in the list, counted from one on.
pub proof fn law_rules_are_named_by_place(i: usize, s: String, n: u64, number: String)
    requires
        i < usize::MAX,
        call_ensures(name_of_rule, (i,), s),
        n == i + 1,
        call_ensures(decimal_string, (n,), number),
    ensures
        s@ == "Regel "@ + number@,
{
}

/// All rules are shown, each with its name and its conditions: one more rule
/// adds its name and its conditions behind the others. Nothing else changes.
pub proof fn law_rules_are_shown(
    channel: Option<SelectedChannel>,
    less: Vec<Filter>,
    last: Filter,
    more: Vec<Filter>,
    r: Plan,
    longer: Plan,
    name: String,
    shown: String,
)
    requires
        showable(opt_channel(channel)),
        less@.len() > 0,
        more@ == less@.push(last),
        less@.len() < usize::MAX,
        call_ensures(handle_command, (&channel, &less), Ok(r)),
        call_ensures(handle_command, (&channel, &more), Ok(longer)),
        call_ensures(name_of_rule, (less@.len() as usize,), name),
        call_ensures(Filter::to_text, (&last,), shown),
    ensures
        r.dialogue is Keep,
        longer.dialogue is Keep,
        longer.reply.text@ == r.reply.text@ + name@ + "\n"@ + shown@ + "\n"@,
{
    let all = filter_views(more@);
    assert(all.drop_last() =~= filter_views(less@));
    assert(all.last() == last@);
    let before = shown_rules(opt_channel(channel), filter_views(less@));
    let after = shown_rules(opt_channel(channel), all);
    let title = PieceView::bold(rule_name(less@.len() as int));
    let rest = PieceView::plain("\n"@ + filter_text(last@) + "\n"@);
    assert(after =~= before.push(title).push(rest));
    assert(after.drop_last() =~= before.push(title));
    assert(before.push(title).drop_last() =~= before);
    let text = crate::rich_text::text_of(before);
    assert(crate::rich_text::text_of(before.push(title)) == text + title.text);
    assert(crate::rich_text::text_of(after) == text + title.text + rest.text);
    assert(longer.reply.text@ =~= r.reply.text@ + name@ + "\n"@ + shown@ + "\n"@);
}

/// Rules are appended behind what is there, two pieces for each.
pub proof fn law_rules_are_appended(pieces: &mut Vec<Piece>, filters: Vec<Filter>)
    requires
        call_ensures(push_rules, (pieces, &filters), ()),
    ensures
        final(pieces)@.len() == old(pieces)@.len() + 2 * filters@.len(),
        forall|i: int|
            0 <= i < old(pieces)@.len() ==> (#[trigger] final(pieces)@[i])@ == old(pieces)@[i]@,
{
    let before = piece_views(old(pieces)@);
    let after = piece_views(final(pieces)@);
    lemma_rule_list_len(filter_views(filters@));
    assert(before.len() == old(pieces)@.len());
    assert(after.len() == final(pieces)@.len());
    assert forall|i: int| 0 <= i < old(pieces)@.len() implies (#[trigger] final(pieces)@[i])@ == old(
        pieces,
    )@[i]@ by {
        assert(after[i] == final(pieces)@[i]@);
        assert(before[i] == old(pieces)@[i]@);
    }
}

proof fn lemma_rule_list_len(filters: Seq<Seq<ConditionView>>)
    ensures
        rule_list(filters).len() == 2 * filters.len(),
    decreases filters.len(),
{
    if filters.len() > 0 {
        lemma_rule_list_len(filters.drop_last());
    }
}

/// The list of rules names the chat that they are for. It says so if there are
/// none.
pub proof fn law_list_names_the_chat(
    channel: Option<SelectedChannel>,
    none: Vec<Filter>,
    only: Filter,
    one: Vec<Filter>,
    r: Plan,
    longer: Plan,
    object: Vec<Piece>,
    named: (String, Vec<crate::message_builder::MessageEntity>),
    name: String,
    shown: String,
)
    requires
        showable(opt_channel(channel)),
        none@.len() == 0,
        one@ == seq![only],
        call_ensures(handle_command, (&channel, &none), Ok(r)),
        call_ensures(handle_command, (&channel, &one), Ok(longer)),
        call_ensures(SelectedChannel::chat_selection_accusative, (&channel,), object),
        call_ensures(crate::rich_text::render, (&object,), Ok(named)),
        call_ensures(name_of_rule, (0,), name),
        call_ensures(Filter::to_text, (&only,), shown),
    ensures
        r.reply.text@ == "Es sind keine Regeln für "@ + named.0@ + " aktiv."@,
        longer.reply.text@ == "Zur Zeit sind die folgenden Regeln für "@ + named.0@
            + " aktiv:\n\n"@ + name@ + "\n"@ + shown@ + "\n"@,
        r.reply.markup is Some && r.reply.markup->0 is RemoveKeyboard,
{
    let target = selection_accusative(opt_channel(channel));
    super::help::lemma_text_of_around(
        PieceView::plain(NO_RULES@),
        target,
        PieceView::plain(NO_RULES_END@),
    );
    super::help::lemma_text_of_around(
        PieceView::plain(RULES@),
        target,
        PieceView::plain(RULES_END@),
    );
    let all = filter_views(one@);
    assert(all.len() == 1 && all[0] == only@);
    assert(all.drop_last() =~= Seq::<Seq<ConditionView>>::empty());
    let start = seq![PieceView::plain(RULES@)] + target + seq![PieceView::plain(RULES_END@)];
    let title = PieceView::bold(rule_name(0));
    let rest = PieceView::plain("\n"@ + filter_text(only@) + "\n"@);
    let pieces = shown_rules(opt_channel(channel), all);
    assert(rule_list(all.drop_last()) =~= Seq::<PieceView>::empty());
    assert(rule_list(all) =~= seq![title, rest]);
    assert(pieces =~= start.push(title).push(rest));
    assert(start.push(title).push(rest).drop_last() =~= start.push(title));
    assert(start.push(title).drop_last() =~= start);
    let text = crate::rich_text::text_of(start);
    assert(crate::rich_text::text_of(start.push(title)) == text + title.text);
    assert(crate::rich_text::text_of(pieces) == text + title.text + rest.text);
    assert(longer.reply.text@ =~= text + name@ + "\n"@ + shown@ + "\n"@);
}

/// The name of each rule is marked bold, and its conditions are not marked.
pub proof fn law_names_of_rules_are_bold(
    channel: Option<SelectedChannel>,
    less: Vec<Filter>,
    last: Filter,
    more: Vec<Filter>,
    r: Plan,
    longer: Plan,
    name: String,
)
    requires
        showable(opt_channel(channel)),
        less@.len() > 0,
        more@ == less@.push(last),
        less@.len() < usize::MAX,
        call_ensures(handle_command, (&channel, &less), Ok(r)),
        call_ensures(handle_command, (&channel, &more), Ok(longer)),
        call_ensures(name_of_rule, (less@.len() as usize,), name),
    ensures
        longer.reply.entities@.len() == r.reply.entities@.len() + 1,
        ({
            let e = longer.reply.entities@.last();
            &&& e.type_field == crate::message_builder::MessageEntityType::Bold
            &&& e.offset == crate::text::utf16_len(r.reply.text@)
            &&& e.length == crate::text::utf16_len(name@)
        }),
{
    let all = filter_views(more@);
    assert(all.drop_last() =~= filter_views(less@));
    assert(all.last() == last@);
    let before = shown_rules(opt_channel(channel), filter_views(less@));
    let after = shown_rules(opt_channel(channel), all);
    let title = PieceView::bold(rule_name(less@.len() as int));
    let rest = PieceView::plain("\n"@ + filter_text(last@) + "\n"@);
    assert(after =~= before.push(title).push(rest));
    assert(after.drop_last() =~= before.push(title));
    assert(before.push(title).drop_last() =~= before);
    reveal_strlit("Regel ");
    crate::text::lemma_utf16_len_bounds(name@);
    let marks = crate::rich_text::entities_of(before);
    let marked = crate::rich_text::entities_of(before.push(title));
    assert(crate::rich_text::entities_of(after) == marked);
    assert(marked.len() == marks.len() + 1);
    let a = crate::message_builder::entity_views(r.reply.entities@);
    let b = crate::message_builder::entity_views(longer.reply.entities@);
    assert(a.len() == r.reply.entities@.len());
    assert(b.len() == longer.reply.entities@.len());
    assert(b.last() == longer.reply.entities@.last()@);
}

} // verus!
