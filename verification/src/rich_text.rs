//! Messages as lists of styled pieces.

use vstd::prelude::*;
use vstd::string::*;

use crate::message_builder::{
    bold, code, italic, pre, text_link, Error, MessageBuilder, MessageEntity, WriteToMessage,
};

verus! {

use crate::message_builder::{
    entity_views, lemma_push_text, Draft, EntityKind, EntityView, MessageEntityType, CHAR_LIMIT,
};
use crate::text::{lemma_utf16_len_concat, utf16_len};

/// How a piece of a message looks.
#[derive(Debug, PartialEq, Eq)]
pub enum Style {
    Plain,
    Bold,
    Italic,
    Code,
    Pre,
    Link(String),
}

/// What a style says.
pub enum StyleView {
    Plain,
    Bold,
    Italic,
    Code,
    Pre,
    Link(Seq<char>),
}

impl View for Style {
    type V = StyleView;

    open spec fn view(&self) -> StyleView {
        match self {
            Style::Plain => StyleView::Plain,
            Style::Bold => StyleView::Bold,
            Style::Italic => StyleView::Italic,
            Style::Code => StyleView::Code,
            Style::Pre => StyleView::Pre,
            Style::Link(url) => StyleView::Link(url@),
        }
    }
}

impl StyleView {
    /// The kind of entity that a style asks for.
    pub open spec fn kind(self) -> Option<EntityKind> {
        match self {
            StyleView::Plain => None,
            StyleView::Bold => Some(EntityKind::plain(MessageEntityType::Bold)),
            StyleView::Italic => Some(EntityKind::plain(MessageEntityType::Italic)),
            StyleView::Code => Some(EntityKind::plain(MessageEntityType::Code)),
            StyleView::Pre => Some(EntityKind::plain(MessageEntityType::Pre)),
            StyleView::Link(url) => Some(EntityKind::link(url)),
        }
    }
}

/// A piece of a message.
#[derive(Debug, PartialEq, Eq)]
pub struct Piece {
    pub text: String,
    pub style: Style,
}

/// What a piece says.
pub struct PieceView {
    pub text: Seq<char>,
    pub style: StyleView,
}

impl View for Piece {
    type V = PieceView;

    open spec fn view(&self) -> PieceView {
        PieceView { text: self.text@, style: self.style@ }
    }
}

/// What a list of pieces says.
pub open spec fn piece_views(pieces: Seq<Piece>) -> Seq<PieceView> {
    pieces.map_values(|p: Piece| p@)
}

impl PieceView {
    /// A piece that is not styled.
    pub open spec fn plain(text: Seq<char>) -> PieceView {
        PieceView { text, style: StyleView::Plain }
    }

    /// A bold piece.
    pub open spec fn bold(text: Seq<char>) -> PieceView {
        PieceView { text, style: StyleView::Bold }
    }

    /// An italic piece.
    pub open spec fn italic(text: Seq<char>) -> PieceView {
        PieceView { text, style: StyleView::Italic }
    }

    /// A piece of code.
    pub open spec fn code(text: Seq<char>) -> PieceView {
        PieceView { text, style: StyleView::Code }
    }

    /// A block of code.
    pub open spec fn pre(text: Seq<char>) -> PieceView {
        PieceView { text, style: StyleView::Pre }
    }

    /// A linked piece.
    pub open spec fn link(url: Seq<char>, text: Seq<char>) -> PieceView {
        PieceView { text, style: StyleView::Link(url) }
    }
}

impl Piece {
    /// A piece that is not styled.
    pub fn plain(text: &str) -> (r: Piece)
        ensures
            r@ == PieceView::plain(text@),
    {
        Piece { text: text.to_owned(), style: Style::Plain }
    }

    /// A bold piece.
    pub fn bold(text: &str) -> (r: Piece)
        ensures
            r@ == PieceView::bold(text@),
    {
        Piece { text: text.to_owned(), style: Style::Bold }
    }

    /// An italic piece.
    pub fn italic(text: &str) -> (r: Piece)
        ensures
            r@ == PieceView::italic(text@),
    {
        Piece { text: text.to_owned(), style: Style::Italic }
    }

    /// A piece of code.
    pub fn code(text: &str) -> (r: Piece)
        ensures
            r@ == PieceView::code(text@),
    {
        Piece { text: text.to_owned(), style: Style::Code }
    }

    /// A block of code.
    pub fn pre(text: &str) -> (r: Piece)
        ensures
            r@ == PieceView::pre(text@),
    {
        Piece { text: text.to_owned(), style: Style::Pre }
    }

    /// A linked piece.
    pub fn link(url: &str, text: &str) -> (r: Piece)
        ensures
            r@ == PieceView::link(url@, text@),
    {
        Piece { text: text.to_owned(), style: Style::Link(url.to_owned()) }
    }
}

/// What writing a piece makes of a draft.
pub open spec fn styled(before: Draft, piece: PieceView) -> (bool, Draft) {
    let (ok, after) = before.push_text(piece.text);
    match piece.style.kind() {
        Some(kind) if ok => (true, after.mark(before, kind)),
        _ => (ok, after),
    }
}

impl WriteToMessage for Piece {
    open spec fn ready(&self) -> bool {
        true
    }

    open spec fn writes(&self, before: Draft, ok: bool, after: Draft) -> bool {
        (ok, after) == styled(before, self@)
    }

    proof fn writes_valid(&self, before: Draft, ok: bool, after: Draft) {
        lemma_push_text(before, self.text@);
    }

    fn write_to(&self, message: &mut MessageBuilder) -> Result<(), Error> {
        match &self.style {
            Style::Plain => message.write(self.text.as_str()),
            Style::Bold => message.write(bold(self.text.as_str())),
            Style::Italic => message.write(italic(self.text.as_str())),
            Style::Code => message.write(code(self.text.as_str())),
            Style::Pre => message.write(pre(self.text.as_str())),
            Style::Link(url) => message.write(text_link(url.as_str(), self.text.as_str())),
        }
    }
}

/// The text of a message.
pub open spec fn text_of(pieces: Seq<PieceView>) -> Seq<char>
    decreases pieces.len(),
{
    if pieces.len() == 0 {
        Seq::empty()
    } else {
        text_of(pieces.drop_last()) + pieces.last().text
    }
}

/// The entities of a message: one for each styled piece that is not empty.
pub open spec fn entities_of(pieces: Seq<PieceView>) -> Seq<EntityView>
    decreases pieces.len(),
{
    if pieces.len() == 0 {
        Seq::empty()
    } else {
        let before = entities_of(pieces.drop_last());
        let length = utf16_len(pieces.last().text);
        match pieces.last().style.kind() {
            Some(kind) if length > 0 => before.push(
                kind.entity(utf16_len(text_of(pieces.drop_last())), length),
            ),
            _ => before,
        }
    }
}

/// The message is short enough to be sent.
pub open spec fn fits(pieces: Seq<PieceView>) -> bool {
    text_of(pieces).len() <= CHAR_LIMIT
}

/// A text is not shorter than its start.
proof fn lemma_text_grows(pieces: Seq<PieceView>, k: int)
    requires
        0 <= k <= pieces.len(),
    ensures
        text_of(pieces.take(k)).len() <= text_of(pieces).len(),
    decreases pieces.len() - k,
{
    if k == pieces.len() {
        assert(pieces.take(k) =~= pieces);
    } else {
        lemma_text_grows(pieces, k + 1);
        assert(pieces.take(k + 1).drop_last() =~= pieces.take(k));
    }
}

/// Puts the pieces together, unless the message gets too long.
pub fn render(pieces: &Vec<Piece>) -> (r: Result<(String, Vec<MessageEntity>), Error>)
    ensures
        match r {
            Ok(m) => {
                &&& fits(piece_views(pieces@))
                &&& m.0@ == text_of(piece_views(pieces@))
                &&& entity_views(m.1@) == entities_of(piece_views(pieces@))
            },
            Err(_) => !fits(piece_views(pieces@)),
        },
{
    let ghost all = piece_views(pieces@);
    let mut msg = MessageBuilder::new();
    let mut i: usize = 0;
    assert(all.take(0) =~= Seq::<PieceView>::empty());
    while i < pieces.len()
        invariant
            i <= pieces@.len(),
            all == piece_views(pieces@),
            msg@.valid(),
            msg@ == (Draft {
                text: text_of(all.take(i as int)),
                entities: entities_of(all.take(i as int)),
                limit: CHAR_LIMIT as nat,
            }),
        decreases pieces@.len() - i,
    {
        let ghost before = msg@;
        let ghost shown = all.take(i + 1);
        proof {
            assert(shown.drop_last() =~= all.take(i as int));
            assert(shown.last() == pieces@[i as int]@);
            lemma_text_grows(all, i + 1);
            lemma_utf16_len_concat(before.text, pieces@[i as int].text@);
        }
        match pieces[i].write_to(&mut msg) {
            Ok(()) => {
                proof {
                    pieces@[i as int].writes_valid(before, true, msg@);
                }
                assert(msg@ =~= (Draft {
                    text: text_of(shown),
                    entities: entities_of(shown),
                    limit: CHAR_LIMIT as nat,
                }));
            },
            Err(e) => return Err(e),
        }
        i = i + 1;
    }
    assert(all.take(all.len() as int) =~= all);
    Ok(msg.build())
}

/// A further piece appends its text, and a mark of its style if it has one and is
/// not empty. All that was there stays.
pub proof fn law_pieces_are_appended(
    less: Vec<Piece>,
    last: Piece,
    more: Vec<Piece>,
    r: (String, Vec<MessageEntity>),
    longer: (String, Vec<MessageEntity>),
)
    requires
        more@ == less@.push(last),
        call_ensures(render, (&less,), Ok(r)),
        call_ensures(render, (&more,), Ok(longer)),
    ensures
        longer.0@ == r.0@ + last.text@,
        ({
            let marked = !(last.style is Plain) && last.text@.len() > 0;
            let n = r.1@.len() as int;
            &&& longer.1@.len() == n + if marked {
                1int
            } else {
                0
            }
            &&& forall|i: int| 0 <= i < n ==> (#[trigger] longer.1@[i])@ == r.1@[i]@
            &&& marked ==> {
                let e = longer.1@[n];
                &&& e.offset == utf16_len(r.0@)
                &&& e.length == utf16_len(last.text@)
                &&& e.type_field == match last.style {
                    Style::Plain => e.type_field,
                    Style::Bold => MessageEntityType::Bold,
                    Style::Italic => MessageEntityType::Italic,
                    Style::Code => MessageEntityType::Code,
                    Style::Pre => MessageEntityType::Pre,
                    Style::Link(_) => MessageEntityType::TextLink,
                }
                &&& last.style matches Style::Link(url) ==> e.url is Some && e.url->0@ == url@
                &&& !(last.style is Link) ==> e.url is None
            }
        }),
{
    let all = piece_views(more@);
    assert(all.drop_last() =~= piece_views(less@));
    assert(all.last() == last@);
    crate::text::lemma_utf16_len_bounds(last.text@);
    let n = r.1@.len() as int;
    let views = entity_views(longer.1@);
    assert(views.len() == longer.1@.len());
    assert(entity_views(r.1@).len() == n);
    assert forall|i: int| 0 <= i < n implies (#[trigger] longer.1@[i])@ == r.1@[i]@ by {
        assert(views[i] == longer.1@[i]@);
        assert(entity_views(r.1@)[i] == r.1@[i]@);
    }
    if !(last.style is Plain) && last.text@.len() > 0 {
        assert(views[n] == longer.1@[n]@);
    }
}

/// Pieces make a message exactly if they are not longer than a message may be,
/// and pieces that are too long stay so whatever is added.
pub proof fn law_long_messages_are_refused(
    none: Vec<Piece>,
    less: Vec<Piece>,
    last: Piece,
    more: Vec<Piece>,
    r: (
        Result<(String, Vec<MessageEntity>), Error>,
        Result<(String, Vec<MessageEntity>), Error>,
        Result<(String, Vec<MessageEntity>), Error>,
    ),
)
    requires
        none@.len() == 0,
        more@ == less@.push(last),
        call_ensures(render, (&none,), r.0),
        call_ensures(render, (&less,), r.1),
        call_ensures(render, (&more,), r.2),
    ensures
        r.0 is Ok && r.0->Ok_0.0@.len() == 0 && r.0->Ok_0.1@.len() == 0,
        r.1 is Err ==> r.2 is Err,
        r.1 is Ok ==> (r.2 is Ok <==> r.1->Ok_0.0@.len() + last.text@.len() <= 4096),
{
    let all = piece_views(more@);
    assert(all.drop_last() =~= piece_views(less@));
    assert(all.last() == last@);
    assert(piece_views(none@).len() == 0);
    if r.0 is Ok {
        assert(entity_views(r.0->Ok_0.1@).len() == r.0->Ok_0.1@.len());
    }
}

/// A piece has the text and the style that it is made for.
pub proof fn law_pieces_have_their_styles(
    t: &str,
    url: &str,
    plain: Piece,
    b: Piece,
    i: Piece,
    c: Piece,
    p: Piece,
    l: Piece,
)
    requires
        call_ensures(Piece::plain, (t,), plain),
        call_ensures(Piece::bold, (t,), b),
        call_ensures(Piece::italic, (t,), i),
        call_ensures(Piece::code, (t,), c),
        call_ensures(Piece::pre, (t,), p),
        call_ensures(Piece::link, (url, t), l),
    ensures
        plain.text@ == t@ && plain.style is Plain,
        b.text@ == t@ && b.style is Bold,
        i.text@ == t@ && i.style is Italic,
        c.text@ == t@ && c.style is Code,
        p.text@ == t@ && p.style is Pre,
        l.text@ == t@ && (l.style matches Style::Link(u) && u@ == url@),
{
}

/// A styled piece that is not empty has a mark among those of the message.
pub proof fn lemma_piece_is_marked(pieces: Seq<PieceView>, k: int) -> (i: int)
    requires
        0 <= k < pieces.len(),
        pieces[k].style.kind() is Some,
        pieces[k].text.len() > 0,
    ensures
        0 <= i < entities_of(pieces).len(),
        entities_of(pieces)[i] == pieces[k].style.kind()->0.entity(
            utf16_len(text_of(pieces.take(k))),
            utf16_len(pieces[k].text),
        ),
    decreases pieces.len(),
{
    let rest = pieces.drop_last();
    crate::text::lemma_utf16_len_bounds(pieces[k].text);
    if k == pieces.len() - 1 {
        assert(pieces.take(k) =~= rest);
        entities_of(pieces).len() - 1
    } else {
        let i = lemma_piece_is_marked(rest, k);
        assert(rest.take(k) =~= pieces.take(k));
        i
    }
}

/// Each styled piece that is not empty is marked where it stands: behind the
/// text of the pieces before, over its own text.
pub proof fn law_styled_pieces_are_marked(
    pieces: Vec<Piece>,
    k: int,
    before: Vec<Piece>,
    start: (String, Vec<MessageEntity>),
    r: (String, Vec<MessageEntity>),
) -> (i: int)
    requires
        0 <= k < pieces@.len(),
        !(pieces@[k].style is Plain),
        pieces@[k].text@.len() > 0,
        before@ == pieces@.take(k),
        call_ensures(render, (&before,), Ok(start)),
        call_ensures(render, (&pieces,), Ok(r)),
    ensures
        0 <= i < r.1@.len(),
        r.1@[i].offset == utf16_len(start.0@),
        r.1@[i].length == utf16_len(pieces@[k].text@),
        r.1@[i].type_field == match pieces@[k].style {
            Style::Plain => r.1@[i].type_field,
            Style::Bold => MessageEntityType::Bold,
            Style::Italic => MessageEntityType::Italic,
            Style::Code => MessageEntityType::Code,
            Style::Pre => MessageEntityType::Pre,
            Style::Link(_) => MessageEntityType::TextLink,
        },
        pieces@[k].style matches Style::Link(url) ==> r.1@[i].url is Some && r.1@[i].url->0@ == url@,
{
    let all = piece_views(pieces@);
    assert(all[k] == pieces@[k]@);
    assert(all.take(k) =~= piece_views(before@));
    let i = lemma_piece_is_marked(all, k);
    assert(entity_views(r.1@).len() == r.1@.len());
    assert(entity_views(r.1@)[i] == r.1@[i]@);
    i
}

} // verus!
