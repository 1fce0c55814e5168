//! Reply keyboards: buttons that stand for choices.

use vstd::prelude::*;
use vstd::string::*;

use crate::channel::SelectedChannel;
use crate::text::same_text;
use crate::types::ChatId;

verus! {

use crate::channel::ChannelView;
use crate::text::opt_string;

/// How many buttons stand side by side.
pub const BUTTONS_PER_ROW: usize = 2;

/// A chat that a user has shared in answer to a button.
#[derive(Debug, PartialEq, Eq)]
pub struct ChatShared {
    pub request_id: i32,
    pub chat_id: ChatId,
    pub title: Option<String>,
    pub username: Option<String>,
}

impl ChatShared {
    /// The channel that was shared.
    pub open spec fn spec_channel(self) -> ChannelView {
        ChannelView {
            chat_id: self.chat_id,
            username: opt_string(self.username),
            title: opt_string(self.title),
        }
    }

    /// The channel that was shared.
    pub fn channel(&self) -> (r: SelectedChannel)
        ensures
            r@ == self.spec_channel(),
    {
        SelectedChannel {
            chat_id: self.chat_id,
            username: self.username.clone(),
            title: self.title.clone(),
        }
    }
}

/// What of a user's message can answer a question.
#[derive(Debug, PartialEq, Eq)]
pub struct Answer {
    pub text: Option<String>,
    pub chat_shared: Option<ChatShared>,
}

/// A button of a keyboard.
#[derive(Debug, PartialEq, Eq)]
pub enum Button {
    /// Sends its text.
    Text { text: String },
    /// Lets the user share a channel that user and bot may post to.
    RequestChat { text: String, request_id: i32 },
}

/// What a button says.
pub enum ButtonView {
    Text { text: Seq<char> },
    RequestChat { text: Seq<char>, request_id: i32 },
}

impl View for Button {
    type V = ButtonView;

    open spec fn view(&self) -> ButtonView {
        match self {
            Button::Text { text } => ButtonView::Text { text: text@ },
            Button::RequestChat { text, request_id } => ButtonView::RequestChat {
                text: text@,
                request_id: *request_id,
            },
        }
    }
}

impl ButtonView {
    /// The answer comes from this button.
    pub open spec fn answered_by(self, answer: Answer) -> bool {
        match self {
            ButtonView::Text { text } => opt_string(answer.text) == Some(text),
            ButtonView::RequestChat { request_id, .. } => match answer.chat_shared {
                Some(shared) => shared.request_id == request_id,
                None => false,
            },
        }
    }
}

impl Button {
    /// Whether the answer comes from this button.
    pub fn is_answered_by(&self, answer: &Answer) -> (r: bool)
        ensures
            r == self@.answered_by(*answer),
    {
        match self {
            Button::Text { text } => match &answer.text {
                Some(t) => same_text(t.as_str(), text.as_str()),
                None => false,
            },
            Button::RequestChat { request_id, .. } => match &answer.chat_shared {
                Some(shared) => shared.request_id == *request_id,
                None => false,
            },
        }
    }
}

/// Something that a user can choose by a button.
pub trait Choice: Sized {
    spec fn spec_button(&self) -> ButtonView;

    /// The button that stands for the choice.
    fn button(&self) -> (r: Button)
        ensures
            r@ == self.spec_button(),
    ;
}

/// What the choices' buttons say.
pub open spec fn choice_buttons<C: Choice>(choices: Seq<C>) -> Seq<ButtonView> {
    choices.map_values(|c: C| c.spec_button())
}

/// What buttons say.
pub open spec fn button_views(buttons: Seq<Button>) -> Seq<ButtonView> {
    buttons.map_values(|b: Button| b@)
}

/// What rows of buttons say.
pub open spec fn row_views(rows: Seq<Vec<Button>>) -> Seq<Seq<ButtonView>> {
    rows.map_values(|row: Vec<Button>| button_views(row@))
}

/// The first choice whose button the answer comes from.
pub open spec fn first_answered<C: Choice>(choices: Seq<C>, answer: Answer) -> Option<C>
    decreases choices.len(),
{
    if choices.len() == 0 {
        None
    } else if choices[0].spec_button().answered_by(answer) {
        Some(choices[0])
    } else {
        first_answered(choices.skip(1), answer)
    }
}

/// The first choice that the answer comes from is the one with none before.
pub proof fn lemma_first_answered<C: Choice>(choices: Seq<C>, answer: Answer, i: int)
    requires
        0 <= i <= choices.len(),
        forall|j: int| 0 <= j < i ==> !(#[trigger] choices[j]).spec_button().answered_by(answer),
        i < choices.len() ==> choices[i].spec_button().answered_by(answer),
    ensures
        first_answered(choices, answer) == (if i < choices.len() {
            Some(choices[i])
        } else {
            None
        }),
    decreases choices.len(),
{
    if choices.len() > 0 && i > 0 {
        let rest = choices.skip(1);
        assert(!choices[0].spec_button().answered_by(answer));
        assert forall|j: int| 0 <= j < i - 1 implies !(
        #[trigger] rest[j]).spec_button().answered_by(answer) by {
            assert(rest[j] == choices[j + 1]);
        }
        lemma_first_answered(rest, answer, i - 1);
    }
}

/// Finds the first choice whose button the answer comes from.
pub fn match_action<C: Choice>(choices: &Vec<C>, answer: &Answer) -> (r: Option<usize>)
    ensures
        first_answered(choices@, *answer) == (match r {
            Some(i) => Some(choices@[i as int]),
            None => None,
        }),
        match r {
            Some(i) => {
                &&& i < choices@.len()
                &&& choices@[i as int].spec_button().answered_by(*answer)
                &&& forall|j: int|
                    0 <= j < i ==> !(#[trigger] choices@[j]).spec_button().answered_by(*answer)
            },
            None => forall|j: int|
                0 <= j < choices@.len() ==> !(#[trigger] choices@[j]).spec_button().answered_by(
                    *answer,
                ),
        },
{
    let mut i: usize = 0;
    while i < choices.len()
        invariant
            i <= choices@.len(),
            forall|j: int|
                0 <= j < i ==> !(#[trigger] choices@[j]).spec_button().answered_by(*answer),
        decreases choices@.len() - i,
    {
        let button = choices[i].button();
        if button.is_answered_by(answer) {
            proof {
                lemma_first_answered(choices@, *answer, i as int);
            }
            return Some(i);
        }
        i = i + 1;
    }
    proof {
        lemma_first_answered(choices@, *answer, choices@.len() as int);
    }
    None
}

/// Buttons in rows of `BUTTONS_PER_ROW`; the last row may be shorter.
pub open spec fn rows_of(buttons: Seq<ButtonView>) -> Seq<Seq<ButtonView>>
    decreases buttons.len(),
{
    if buttons.len() == 0 {
        Seq::empty()
    } else if buttons.len() <= BUTTONS_PER_ROW {
        seq![buttons]
    } else {
        seq![buttons.take(BUTTONS_PER_ROW as int)] + rows_of(buttons.skip(BUTTONS_PER_ROW as int))
    }
}

/// What a message does to the keyboard.
#[derive(Debug, PartialEq, Eq)]
pub enum ReplyMarkup {
    /// Shows rows of buttons.
    Keyboard {
        rows: Vec<Vec<Button>>,
        /// The keyboard is hidden once a button is pressed.
        one_time: bool,
        /// The keyboard is as small as its buttons allow.
        resize: bool,
    },
    /// Hides the keyboard.
    RemoveKeyboard,
    /// Asks the user to reply.
    ForceReply {
        /// The hint in the input field.
        placeholder: String,
        /// Only the user that is answered is asked.
        selective: bool,
    },
}

/// What is done to the keyboard.
pub enum MarkupView {
    Keyboard { rows: Seq<Seq<ButtonView>>, one_time: bool, resize: bool },
    RemoveKeyboard,
    ForceReply { placeholder: Seq<char>, selective: bool },
}

impl MarkupView {
    /// A keyboard that is shown once, as small as its buttons allow.
    pub open spec fn keyboard(rows: Seq<Seq<ButtonView>>) -> MarkupView {
        MarkupView::Keyboard { rows, one_time: true, resize: true }
    }

    /// Asks only the user that is answered to reply.
    pub open spec fn force_reply(placeholder: Seq<char>) -> MarkupView {
        MarkupView::ForceReply { placeholder, selective: true }
    }
}

impl View for ReplyMarkup {
    type V = MarkupView;

    open spec fn view(&self) -> MarkupView {
        match self {
            ReplyMarkup::Keyboard { rows, one_time, resize } => MarkupView::Keyboard {
                rows: row_views(rows@),
                one_time: *one_time,
                resize: *resize,
            },
            ReplyMarkup::RemoveKeyboard => MarkupView::RemoveKeyboard,
            ReplyMarkup::ForceReply { placeholder, selective } => MarkupView::ForceReply {
                placeholder: placeholder@,
                selective: *selective,
            },
        }
    }
}

/// The rows of a list that is longer than one row by at most one row are its
/// first row and the rest.
proof fn lemma_rows_push(buttons: Seq<ButtonView>, b: ButtonView)
    ensures
        ({
            let rows = rows_of(buttons);
            let more = rows_of(buttons.push(b));
            &&& forall|i: int| 0 <= i < rows.len() ==> 0 < (#[trigger] rows[i]).len()
                <= BUTTONS_PER_ROW
            &&& if rows.len() > 0 && rows.last().len() < BUTTONS_PER_ROW {
                more == rows.drop_last().push(rows.last().push(b))
            } else {
                more == rows.push(seq![b])
            }
        }),
    decreases buttons.len(),
{
    let n = BUTTONS_PER_ROW as int;
    let all = buttons.push(b);
    let rows = rows_of(buttons);
    let more = rows_of(all);
    if buttons.len() == 0 {
        assert(all =~= seq![b]);
        assert(more =~= rows.push(seq![b]));
    } else if buttons.len() < n {
        assert(more =~= rows.drop_last().push(rows.last().push(b)));
    } else if buttons.len() == n {
        assert(all.take(n) =~= buttons);
        assert(all.skip(n) =~= seq![b]);
        assert(rows_of(all.skip(n)) =~= seq![seq![b]]);
        assert(more =~= rows.push(seq![b]));
    } else {
        let rest = buttons.skip(n);
        lemma_rows_push(rest, b);
        assert(all.take(n) =~= buttons.take(n));
        assert(all.skip(n) =~= rest.push(b));
        let rest_rows = rows_of(rest);
        assert(rest_rows.len() > 0);
        assert(rows.last() == rest_rows.last());
        assert forall|i: int| 0 <= i < rows.len() implies 0 < (#[trigger] rows[i]).len() <= n by {
            if i > 0 {
                assert(rows[i] == rest_rows[i - 1]);
            }
        }
        if rest_rows.last().len() < n {
            assert(more =~= rows.drop_last().push(rows.last().push(b)));
        } else {
            assert(more =~= rows.push(seq![b]));
        }
    }
}

/// The keyboard with a button for each choice. It is shown once, as small as its
/// buttons allow.
pub fn keyboard_markup<C: Choice>(choices: &Vec<C>) -> (r: ReplyMarkup)
    ensures
        r@ == MarkupView::keyboard(rows_of(choice_buttons(choices@))),
{
    let ghost all = choice_buttons(choices@);
    let mut keyboard: Vec<Vec<Button>> = Vec::new();
    let mut i: usize = 0;
    assert(all.take(0) =~= Seq::<ButtonView>::empty());
    assert(row_views(keyboard@) =~= rows_of(all.take(0)));
    while i < choices.len()
        invariant
            i <= choices@.len(),
            all == choice_buttons(choices@),
            row_views(keyboard@) == rows_of(all.take(i as int)),
        decreases choices@.len() - i,
    {
        let b = choices[i].button();
        let ghost rows = row_views(keyboard@);
        let ghost bv = b@;
        proof {
            assert(all.take(i + 1) =~= all.take(i as int).push(bv));
            lemma_rows_push(all.take(i as int), bv);
        }
        let n: usize = keyboard.len();
        let room = if n > 0 {
            assert(rows.last() == button_views(keyboard@[n - 1]@));
            keyboard[n - 1].len() < BUTTONS_PER_ROW
        } else {
            false
        };
        if room {
            match keyboard.pop() {
                Some(mut row) => {
                    let ghost before = row@;
                    row.push(b);
                    assert(button_views(row@) =~= button_views(before).push(bv));
                    keyboard.push(row);
                    assert(row_views(keyboard@) =~= rows.drop_last().push(rows.last().push(bv)));
                },
                None => {},
            }
        } else {
            let row = vec![b];
            assert(button_views(row@) =~= seq![bv]);
            keyboard.push(row);
            assert(row_views(keyboard@) =~= rows.push(seq![bv]));
        }
        i = i + 1;
    }
    assert(all.take(all.len() as int) =~= all);
    ReplyMarkup::Keyboard { rows: keyboard, one_time: true, resize: true }
}

/// Hides the keyboard.
pub fn remove_keyboard() -> (r: ReplyMarkup)
    ensures
        r@ == MarkupView::RemoveKeyboard,
{
    ReplyMarkup::RemoveKeyboard
}

/// Asks for a reply, of the user that is answered only.
pub fn force_reply(placeholder: &str) -> (r: ReplyMarkup)
    ensures
        r@ == MarkupView::force_reply(placeholder@),
{
    ReplyMarkup::ForceReply { placeholder: placeholder.to_owned(), selective: true }
}

/// Buttons of all rows, one after the other.
pub open spec fn flattened(rows: Seq<Seq<ButtonView>>) -> Seq<ButtonView>
    decreases rows.len(),
{
    if rows.len() == 0 {
        Seq::empty()
    } else {
        rows[0] + flattened(rows.skip(1))
    }
}

/// A keyboard shows every button once, in order. Every row is full but the last
/// one, which is not empty.
pub proof fn law_keyboard_is_complete(buttons: Seq<ButtonView>)
    ensures
        flattened(rows_of(buttons)) == buttons,
        forall|i: int|
            0 <= i < rows_of(buttons).len() ==> 0 < (#[trigger] rows_of(buttons)[i]).len()
                <= BUTTONS_PER_ROW,
        forall|i: int|
            0 <= i < rows_of(buttons).len() - 1 ==> (#[trigger] rows_of(buttons)[i]).len()
                == BUTTONS_PER_ROW,
    decreases buttons.len(),
{
    let n = BUTTONS_PER_ROW as int;
    let rows = rows_of(buttons);
    if buttons.len() == 0 {
    } else if buttons.len() <= n {
        assert(rows.skip(1) =~= Seq::<Seq<ButtonView>>::empty());
        assert(flattened(rows.skip(1)) =~= Seq::<ButtonView>::empty());
        assert(rows[0] + Seq::<ButtonView>::empty() =~= buttons);
    } else {
        law_keyboard_is_complete(buttons.skip(n));
        assert(rows.skip(1) =~= rows_of(buttons.skip(n)));
        assert(buttons.take(n) + buttons.skip(n) =~= buttons);
        assert forall|i: int| 0 <= i < rows.len() implies 0 < (#[trigger] rows[i]).len() <= n by {
            if i > 0 {
                assert(rows[i] == rows_of(buttons.skip(n))[i - 1]);
            }
        }
        assert forall|i: int| 0 <= i < rows.len() - 1 implies (#[trigger] rows[i]).len() == n by {
            if i > 0 {
                assert(rows[i] == rows_of(buttons.skip(n))[i - 1]);
            }
        }
    }
}

/// A button that sends its text is answered by exactly this text, and one that
/// lets a chat be shared by a chat that was shared for it.
pub proof fn law_buttons_know_their_answers(button: &Button, answer: &Answer, r: bool)
    requires
        call_ensures(Button::is_answered_by, (button, answer), r),
    ensures
        *button matches Button::Text { text } ==> (r <==> answer.text is Some
            && answer.text->0@ == text@),
        *button matches Button::RequestChat { request_id, .. } ==> (r <==> answer.chat_shared is Some
            && answer.chat_shared->0.request_id == request_id),
{
}

/// Of the choices, the first one is taken that the answer comes from. There is
/// none only if it comes from none of them.
pub proof fn law_first_choice_is_taken<C: Choice>(
    choices: Vec<C>,
    answer: &Answer,
    r: Option<usize>,
    buttons: Seq<Button>,
    hits: Seq<bool>,
)
    requires
        call_ensures(match_action::<C>, (&choices, answer), r),
        buttons.len() == choices@.len(),
        hits.len() == choices@.len(),
        forall|i: int|
            0 <= i < choices@.len() ==> call_ensures(
                C::button,
                (&choices@[i],),
                #[trigger] buttons[i],
            ),
        forall|i: int|
            0 <= i < choices@.len() ==> call_ensures(
                Button::is_answered_by,
                (&buttons[i], answer),
                #[trigger] hits[i],
            ),
    ensures
        match r {
            Some(i) => {
                &&& i < choices@.len()
                &&& hits[i as int]
                &&& forall|j: int| 0 <= j < i ==> !#[trigger] hits[j]
            },
            None => forall|j: int| 0 <= j < choices@.len() ==> !#[trigger] hits[j],
        },
{
    assert forall|j: int| 0 <= j < choices@.len() implies #[trigger] hits[j]
        == choices@[j].spec_button().answered_by(*answer) by {
        assert(buttons[j]@ == choices@[j].spec_button());
    }
}

/// A keyboard shows the buttons of all choices, two side by side, in their order.
/// It is shown once, as small as its buttons allow.
pub proof fn law_keyboard_shows_choices<C: Choice>(
    choices: Vec<C>,
    r: ReplyMarkup,
    i: int,
    button: Button,
)
    requires
        call_ensures(keyboard_markup::<C>, (&choices,), r),
        0 <= i < choices@.len(),
        call_ensures(C::button, (&choices@[i],), button),
    ensures
        r matches ReplyMarkup::Keyboard { rows, one_time, resize } && {
            &&& one_time
            &&& resize
            &&& 2 * rows@.len() - 1 <= choices@.len() <= 2 * rows@.len()
            &&& rows@[i / 2]@.len() == (if 2 * (i / 2) + 1 < choices@.len() {
                2int
            } else {
                1
            })
            &&& rows@[i / 2]@[i % 2]@ == button@
        },
{
    if let ReplyMarkup::Keyboard { rows, one_time, resize } = r {
        let all = choice_buttons(choices@);
        lemma_row_of(all, i);
        let views = row_views(rows@);
        assert(views == rows_of(all));
        assert(views.len() == rows@.len());
        assert(views[i / 2] == button_views(rows@[i / 2]@));
        assert(views[i / 2][i % 2] == rows@[i / 2]@[i % 2]@);
        assert(all[i] == choices@[i].spec_button());
    }
}

proof fn lemma_row_of(buttons: Seq<ButtonView>, i: int)
    requires
        0 <= i < buttons.len(),
    ensures
        ({
            let rows = rows_of(buttons);
            &&& 2 * rows.len() - 1 <= buttons.len() <= 2 * rows.len()
            &&& rows[i / 2].len() == (if 2 * (i / 2) + 1 < buttons.len() {
                2int
            } else {
                1
            })
            &&& rows[i / 2][i % 2] == buttons[i]
        }),
    decreases buttons.len(),
{
    let rows = rows_of(buttons);
    if buttons.len() > 2 {
        let rest = buttons.skip(2);
        let further = rows_of(rest);
        assert(rows =~= seq![buttons.take(2)] + further);
        if i >= 2 {
            lemma_row_of(rest, i - 2);
            assert(rows[i / 2] == further[(i - 2) / 2]);
            assert((i - 2) % 2 == i % 2);
        } else {
            lemma_row_of(rest, 0);
        }
    }
}

/// A chat that was shared becomes the channel with its identifier, name and
/// title.
pub proof fn law_shared_chat_becomes_channel(shared: &ChatShared, r: SelectedChannel)
    requires
        call_ensures(ChatShared::channel, (shared,), r),
    ensures
        r.chat_id == shared.chat_id,
        r.username is Some <==> shared.username is Some,
        r.username is Some ==> r.username->0@ == shared.username->0@,
        r.title is Some <==> shared.title is Some,
        r.title is Some ==> r.title->0@ == shared.title->0@,
{
}

/// A question asks for a reply with its hint, of the user that is answered.
pub proof fn law_hint_is_shown(placeholder: &str, r: ReplyMarkup, removal: ReplyMarkup)
    requires
        call_ensures(force_reply, (placeholder,), r),
        call_ensures(remove_keyboard, (), removal),
    ensures
        r matches ReplyMarkup::ForceReply { placeholder: hint, selective } && hint@ == placeholder@
            && selective,
        removal is RemoveKeyboard,
{
}

} // verus!
