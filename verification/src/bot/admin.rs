//! The token by which a user becomes the administrator of the bot.

use rand::distr::Alphanumeric;
use rand::Rng;
use vstd::prelude::*;
use vstd::string::*;

use crate::text::same_text;
use crate::types::ChatId;

verus! {

/// The number of characters of a token.
pub const TOKEN_LENGTH: usize = 12;

/// How long a token is valid, in nanoseconds.
pub const TOKEN_NANOS: i64 = 600_000_000_000;

/// A letter or digit.
pub open spec fn is_alphanumeric(c: char) -> bool {
    ('0' <= c && c <= '9') || ('A' <= c && c <= 'Z') || ('a' <= c && c <= 'z')
}

/// Samples [`Alphanumeric`] from [`rand::rng`]: a random letter or digit.
#[verifier::external_body]
fn random_alphanumeric() -> (c: char)
    ensures
        is_alphanumeric(c),
{
    char::from(rand::rng().sample(Alphanumeric))
}

/// A token that can be used once, within a limited time.
#[derive(Debug)]
pub struct AdminToken {
    token: String,
    valid_until: i64,
    used: bool,
}

/// What a token says.
pub struct TokenView {
    pub token: Seq<char>,
    /// The point in time, in nanoseconds, from which on it is not valid.
    pub valid_until: int,
    pub used: bool,
}

impl View for AdminToken {
    type V = TokenView;

    closed spec fn view(&self) -> TokenView {
        TokenView {
            token: self.token@,
            valid_until: self.valid_until as int,
            used: self.used,
        }
    }
}

impl AdminToken {
    /// Makes a random token that is valid for ten minutes.
    pub fn new(now: i64) -> (r: Self)
        requires
            now + TOKEN_NANOS <= i64::MAX,
        ensures
            r@.token.len() == TOKEN_LENGTH,
            forall|i: int| 0 <= i < r@.token.len() ==> is_alphanumeric(#[trigger] r@.token[i]),
            r@.valid_until == now + TOKEN_NANOS,
            !r@.used,
    {
        let mut token = String::new();
        let mut i: usize = 0;
        while i < TOKEN_LENGTH
            invariant
                i <= TOKEN_LENGTH,
                token@.len() == i,
                forall|j: int| 0 <= j < i ==> is_alphanumeric(#[trigger] token@[j]),
            decreases TOKEN_LENGTH - i,
        {
            token.push(random_alphanumeric());
            i = i + 1;
        }
        AdminToken { token, valid_until: now + TOKEN_NANOS, used: false }
    }

    /// Makes a token of a text.
    pub fn with_token(token: &str, valid_until: i64) -> (r: Self)
        ensures
            r@ == (TokenView { token: token@, valid_until: valid_until as int, used: false }),
    {
        AdminToken { token: token.to_owned(), valid_until, used: false }
    }

    /// Checks an input against the token. A token that was matched is used up.
    pub fn validate(&mut self, input: &str, now: i64) -> (valid: bool)
        ensures
            valid == (!old(self)@.used && now < old(self)@.valid_until && input@
                == old(self)@.token),
            final(self)@ == (TokenView { used: old(self)@.used || valid, ..old(self)@ }),
    {
        let valid = !self.used && now < self.valid_until && same_text(input, self.token.as_str());
        if valid {
            self.used = true;
        }
        valid
    }

    /// The text of the token.
    pub fn to_text(&self) -> (s: String)
        ensures
            s@ == self@.token,
    {
        self.token.clone()
    }
}

/// Decides whether a chat becomes the administrator: the token has to be valid,
/// and the chat has to be that of a user. The token is used up even if the
/// chat is a group.
pub fn becomes_admin(token: &mut Option<AdminToken>, input: &str, chat_id: ChatId, now: i64) -> (r:
    Option<u64>)
    ensures
        match *old(token) {
            None => r is None && *final(token) is None,
            Some(t) => {
                let valid = !t@.used && now < t@.valid_until && input@ == t@.token;
                &&& r == (if valid && chat_id > 0 {
                    Some(chat_id as u64)
                } else {
                    None
                })
                &&& match *final(token) {
                    Some(after) => after@ == (TokenView { used: t@.used || valid, ..t@ }),
                    None => false,
                }
            },
        },
{
    match token {
        None => None,
        Some(t) => {
            if t.validate(input, now) && chat_id > 0 {
                Some(chat_id as u64)
            } else {
                None
            }
        },
    }
}

/// A token is valid at most once.
pub proof fn law_token_single_use(t: TokenView, first: Seq<char>, second: Seq<char>, t1: int, t2: int)
    ensures
        ({
            let valid1 = !t.used && t1 < t.valid_until && first == t.token;
            let after = TokenView { used: t.used || valid1, ..t };
            let valid2 = !after.used && t2 < after.valid_until && second == after.token;
            !(valid1 && valid2)
        }),
{
}

/// A token is twelve letters or digits and valid for ten minutes.
pub proof fn law_token_lasts_ten_minutes(
    now: i64,
    t: AdminToken,
    token: &str,
    until: i64,
    made: AdminToken,
    shown: String,
)
    requires
        now + TOKEN_NANOS <= i64::MAX,
        call_ensures(AdminToken::new, (now,), t),
        call_ensures(AdminToken::with_token, (token, until), made),
        call_ensures(AdminToken::to_text, (&made,), shown),
    ensures
        t@.token.len() == 12,
        t@.valid_until == now + 10 * 60 * 1_000_000_000,
        !t@.used,
        shown@ == token@,
        made@.token == token@,
        made@.valid_until == until,
        !made@.used,
{
}

/// An input is accepted exactly if it is the token, in time, and the first one to
/// be accepted. Nothing that is refused uses the token up.
pub proof fn law_token_is_accepted_once(
    t: &mut AdminToken,
    first: &str,
    now: i64,
    accepted: bool,
    u: &mut AdminToken,
    second: &str,
    later: i64,
    again: bool,
)
    requires
        call_ensures(AdminToken::validate, (t, first, now), accepted),
        *u == *final(t),
        call_ensures(AdminToken::validate, (u, second, later), again),
    ensures
        accepted <==> !old(t)@.used && now < old(t)@.valid_until && first@ == old(t)@.token,
        !(accepted && again),
        !accepted ==> (again <==> !old(t)@.used && later < old(t)@.valid_until && second@ == old(
            t,
        )@.token),
        final(u)@.token == old(t)@.token,
        final(u)@.valid_until == old(t)@.valid_until,
{
}

/// Only a user becomes the administrator, and only with a token that is
/// accepted.
pub proof fn law_only_users_become_admin(
    token: &mut Option<AdminToken>,
    input: &str,
    chat_id: ChatId,
    now: i64,
    r: Option<u64>,
    t: &mut AdminToken,
    accepted: bool,
)
    requires
        call_ensures(becomes_admin, (token, input, chat_id, now), r),
        *token matches Some(before) ==> *t == before,
        call_ensures(AdminToken::validate, (t, input, now), accepted),
    ensures
        *old(token) is None ==> r is None && *final(token) is None,
        r matches Some(id) ==> id == chat_id && chat_id > 0 && accepted,
        *old(token) is Some && accepted && chat_id > 0 ==> r is Some,
        *old(token) is Some ==> (*final(token) matches Some(after) && after@ == final(t)@),
{
}

} // verus!
