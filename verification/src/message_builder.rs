//! Construction of Telegram messages with rich text entities.
//!
//! A message is a text together with entities that mark ranges of it. Ranges
//! are counted in UTF-16 code units, the length limit in characters.

use vstd::prelude::*;
use vstd::string::*;

use crate::text::{count_utf16, decimal_string, signed_decimal_string};

verus! {

use crate::text::{decimal, lemma_utf16_len_bounds, lemma_utf16_len_concat, opt_string, signed_decimal, utf16_len};

/// The maximum Telegram message length in characters.
pub const CHAR_LIMIT: usize = 4096;

/// Errors related to message construction.
#[derive(Debug, Clone, Copy, PartialEq, Eq, Structural)]
pub enum Error {
    /// The total character count exceeded the character limit.
    MessageTooLong,
}

impl Error {
    /// The error in words.
    pub fn to_text(&self) -> (s: String)
        ensures
            s@ == "Message exceeds character limit"@,
    {
        "Message exceeds character limit".to_owned()
    }
}

/// The kinds of entities that a message can hold.
#[derive(Debug, Clone, Copy, PartialEq, Eq, Structural)]
pub enum MessageEntityType {
    Bold,
    Italic,
    Underline,
    Strikethrough,
    Spoiler,
    Code,
    Pre,
    TextLink,
    CustomEmoji,
    Blockquote,
    ExpandableBlockquote,
}

/// A marked range of the message text, counted in UTF-16 code units.
#[derive(Debug, PartialEq, Eq)]
pub struct MessageEntity {
    pub type_field: MessageEntityType,
    pub offset: u16,
    pub length: u16,
    pub url: Option<String>,
    pub language: Option<String>,
    pub custom_emoji_id: Option<String>,
}

/// What an entity says.
pub struct EntityView {
    pub type_field: MessageEntityType,
    pub offset: nat,
    pub length: nat,
    pub url: Option<Seq<char>>,
    pub language: Option<Seq<char>>,
    pub custom_emoji_id: Option<Seq<char>>,
}

impl View for MessageEntity {
    type V = EntityView;

    open spec fn view(&self) -> EntityView {
        EntityView {
            type_field: self.type_field,
            offset: self.offset as nat,
            length: self.length as nat,
            url: opt_string(self.url),
            language: opt_string(self.language),
            custom_emoji_id: opt_string(self.custom_emoji_id),
        }
    }
}

impl Clone for MessageEntity {
    fn clone(&self) -> (r: Self)
        ensures
            r == *self,
    {
        MessageEntity {
            type_field: self.type_field,
            offset: self.offset,
            length: self.length,
            url: self.url.clone(),
            language: self.language.clone(),
            custom_emoji_id: self.custom_emoji_id.clone(),
        }
    }
}

/// What a list of entities says.
pub open spec fn entity_views(entities: Seq<MessageEntity>) -> Seq<EntityView> {
    entities.map_values(|e: MessageEntity| e@)
}

/// A message under construction: its text, its entities and the number of
/// characters up to which it may grow.
#[verifier::ext_equal]
pub struct Draft {
    pub text: Seq<char>,
    pub entities: Seq<EntityView>,
    pub limit: nat,
}

impl Draft {
    /// The draft that nothing has been written to.
    pub open spec fn empty() -> Draft {
        Draft { text: Seq::empty(), entities: Seq::empty(), limit: CHAR_LIMIT as nat }
    }

    /// The text fits into a message and every entity marks a nonempty range
    /// of it.
    pub open spec fn valid(self) -> bool {
        &&& self.text.len() <= CHAR_LIMIT
        &&& self.limit <= CHAR_LIMIT
        &&& forall|i: int|
            0 <= i < self.entities.len() ==> {
                &&& 0 < (#[trigger] self.entities[i]).length
                &&& self.entities[i].offset + self.entities[i].length <= utf16_len(self.text)
            }
    }

    /// Appends plain text, unless the limit forbids it.
    pub open spec fn push_text(self, s: Seq<char>) -> (bool, Draft) {
        if self.text.len() + s.len() > self.limit {
            (false, self)
        } else {
            (true, Draft { text: self.text + s, ..self })
        }
    }

    /// Marks what was written since `before`, if there is any.
    pub open spec fn mark(self, before: Draft, kind: EntityKind) -> Draft {
        let start = utf16_len(before.text);
        let end = utf16_len(self.text);
        if end > start {
            Draft {
                entities: self.entities.push(kind.entity(start, (end - start) as nat)),
                ..self
            }
        } else {
            self
        }
    }
}

/// Appending text keeps a draft valid.
pub proof fn lemma_push_text(d: Draft, s: Seq<char>)
    requires
        d.valid(),
    ensures
        d.push_text(s).1.valid(),
{
    lemma_utf16_len_concat(d.text, s);
}

/// Marking a range keeps a draft valid.
proof fn lemma_mark(before: Draft, after: Draft, kind: EntityKind)
    requires
        after.valid(),
    ensures
        after.mark(before, kind).valid(),
{
}

/// Builder for constructing Telegram messages with formatting.
#[derive(Debug, PartialEq, Eq)]
pub struct MessageBuilder {
    buf: String,
    entities: Vec<MessageEntity>,
    len_chars: usize,
    len_utf16: usize,
    char_limit: usize,
}

impl View for MessageBuilder {
    type V = Draft;

    closed spec fn view(&self) -> Draft {
        Draft {
            text: self.buf@,
            entities: entity_views(self.entities@),
            limit: self.char_limit as nat,
        }
    }
}

impl Clone for MessageBuilder {
    fn clone(&self) -> (r: Self)
        ensures
            r@ == self@,
    {
        proof {
            use_type_invariant(self);
        }
        let entities = self.entities.clone();
        assert(entities@ =~= self.entities@) by {
            assert forall|i: int| 0 <= i < entities@.len() implies entities@[i] == self.entities@[i] by {
                assert(cloned(self.entities@[i], entities@[i]));
            }
        }
        MessageBuilder {
            buf: self.buf.clone(),
            entities,
            len_chars: self.len_chars,
            len_utf16: self.len_utf16,
            char_limit: self.char_limit,
        }
    }
}

impl Default for MessageBuilder {
    fn default() -> (r: Self)
        ensures
            r@ == Draft::empty(),
    {
        Self::new()
    }
}

impl MessageBuilder {
    /// The counters agree with the text, and the draft is valid.
    #[verifier::type_invariant]
    spec fn counts_right(self) -> bool {
        &&& self.len_chars == self.buf@.len()
        &&& self.len_utf16 == utf16_len(self.buf@)
        &&& self@.valid()
    }

    /// Creates a new, empty message builder.
    pub fn new() -> (r: Self)
        ensures
            r@ == Draft::empty(),
    {
        let r = Self {
            buf: String::new(),
            entities: Vec::new(),
            len_chars: 0,
            len_utf16: 0,
            char_limit: CHAR_LIMIT,
        };
        assert(r@ =~= Draft::empty());
        r
    }

    /// Sets a custom character limit for the message.
    ///
    /// If something is written that would cause the message to exceed this
    /// limit, the write operation returns [`Error::MessageTooLong`].
    pub fn set_char_limit(&mut self, limit: usize)
        requires
            limit <= CHAR_LIMIT,
        ensures
            final(self)@ == (Draft { limit: limit as nat, ..old(self)@ }),
    {
        proof {
            use_type_invariant(&*self);
        }
        self.char_limit = limit;
    }

    /// Returns the current message character limit.
    pub fn get_char_limit(&mut self) -> (n: usize)
        ensures
            n == old(self)@.limit,
            *final(self) == *old(self),
    {
        self.char_limit
    }

    /// Returns the number of unicode characters in the message.
    pub fn len_chars(&self) -> (n: usize)
        ensures
            n == self@.text.len(),
            self@.valid(),
    {
        proof {
            use_type_invariant(self);
        }
        self.len_chars
    }

    /// Returns the number of UTF-16 code units in the message.
    pub fn len_utf16(&self) -> (n: usize)
        ensures
            n == utf16_len(self@.text),
            self@.valid(),
    {
        proof {
            use_type_invariant(self);
        }
        self.len_utf16
    }

    /// Appends a [`WriteToMessage`] item.
    pub fn write<W: WriteToMessage>(&mut self, s: W) -> (r: Result<(), Error>)
        requires
            s.ready(),
        ensures
            s.writes(old(self)@, r is Ok, final(self)@),
            exists|m: &mut MessageBuilder| #[trigger]
                call_ensures(W::write_to, (&s, m), r) && *m == *old(self) && *final(m)
                    == *final(self),
    {
        s.write_to(self)
    }

    /// Appends a [`WriteToMessage`] item followed by a newline.
    pub fn writeln<W: WriteToMessage>(&mut self, s: W) -> (r: Result<(), Error>)
        requires
            s.ready(),
        ensures
            writes_line(s, old(self)@, r is Ok, final(self)@),
            exists|m: &mut MessageBuilder, x: Result<(), Error>| #[trigger]
                call_ensures(W::write_to, (&s, m), x) && *m == *old(self) && match x {
                    Ok(_) => (r is Ok, final(self)@) == final(m)@.push_text("\n"@),
                    Err(_) => r is Err && *final(self) == *final(m),
                },
    {
        let written = s.write_to(self);
        match written {
            Ok(()) => {
                let ghost line = self@;
                let r = self.write_str("\n");
                assert(s.writes(old(self)@, true, line));
                r
            },
            Err(e) => Err(e),
        }
    }

    /// Appends a [`std::fmt::Display`] item. What is appended is what
    /// `to_string` gives for it.
    pub fn write_fmt<D: std::fmt::Display>(&mut self, d: D) -> (r: Result<(), Error>)
        ensures
            exists|shown: String| #[trigger]
                to_string_from_display_ensures::<D>(&d, shown) && (r is Ok, final(self)@) == old(self)@.push_text(shown@),
    {
        let shown = d.to_string();
        self.write_str(shown.as_str())
    }

    /// Appends a plain string.
    pub fn write_str(&mut self, s: &str) -> (r: Result<(), Error>)
        ensures
            (r is Ok, final(self)@) == old(self)@.push_text(s@),
    {
        proof {
            use_type_invariant(&*self);
        }
        let char_count: usize = s.unicode_len();
        if self.len_chars > self.char_limit || char_count > self.char_limit - self.len_chars {
            return Err(Error::MessageTooLong);
        }
        proof {
            lemma_utf16_len_bounds(self.buf@);
            lemma_utf16_len_bounds(s@);
            lemma_utf16_len_concat(self.buf@, s@);
            lemma_push_text(self@, s@);
        }
        let mut before = MessageBuilder::new();
        std::mem::swap(self, &mut before);
        let mut buf = before.buf;
        buf.append(s);
        let after = MessageBuilder {
            buf,
            entities: before.entities,
            len_chars: before.len_chars + char_count,
            len_utf16: before.len_utf16 + count_utf16(s),
            char_limit: before.char_limit,
        };
        assert(after@ =~= old(self)@.push_text(s@).1);
        *self = after;
        Ok(())
    }

    /// Marks what was written since the text had `start` UTF-16 code units.
    fn mark_since<S: AsText>(&mut self, start: usize, entity: &EntityType<S>, before: Ghost<Draft>)
        requires
            start == utf16_len(before@.text),
        ensures
            final(self)@ == old(self)@.mark(before@, entity.kind()),
    {
        proof {
            use_type_invariant(&*self);
            lemma_utf16_len_bounds(self.buf@);
        }
        if self.len_utf16 > start {
            let e = entity.create_entity(start, self.len_utf16 - start);
            let mut bare = MessageBuilder::new();
            std::mem::swap(self, &mut bare);
            let mut entities = bare.entities;
            let ghost marks = entity_views(entities@);
            entities.push(e);
            proof {
                lemma_mark(before@, old(self)@, entity.kind());
                assert(entity_views(entities@) =~= marks.push(e@));
            }
            let after = MessageBuilder {
                buf: bare.buf,
                entities,
                len_chars: bare.len_chars,
                len_utf16: bare.len_utf16,
                char_limit: bare.char_limit,
            };
            assert(after@ =~= old(self)@.mark(before@, entity.kind()));
            *self = after;
        }
    }

    /// Returns accumulated entities.
    pub fn entities(&self) -> (r: &[MessageEntity])
        ensures
            entity_views(r@) == self@.entities,
            self@.valid(),
    {
        proof {
            use_type_invariant(self);
        }
        self.entities.as_slice()
    }

    /// Returns the current text of the message.
    pub fn as_str(&self) -> (r: &str)
        ensures
            r@ == self@.text,
            self@.valid(),
    {
        proof {
            use_type_invariant(self);
        }
        self.buf.as_str()
    }

    /// Consumes the builder and returns message and accumulated entities.
    pub fn build(self) -> (r: (String, Vec<MessageEntity>))
        ensures
            r.0@ == self@.text,
            entity_views(r.1@) == self@.entities,
            self@.valid(),
    {
        proof {
            use_type_invariant(&self);
        }
        (self.buf, self.entities)
    }

    /// Starts a message with a given text.
    pub fn from_text(value: String) -> (r: Result<Self, Error>)
        ensures
            match r {
                Ok(m) => {
                    &&& value@.len() <= CHAR_LIMIT
                    &&& m@ == (Draft { text: value@, ..Draft::empty() })
                },
                Err(_) => value@.len() > CHAR_LIMIT,
            },
    {
        let len_chars: usize = value.as_str().unicode_len();
        if len_chars > CHAR_LIMIT {
            return Err(Error::MessageTooLong);
        }
        let len_utf16: usize = count_utf16(value.as_str());
        let r = MessageBuilder {
            buf: value,
            entities: Vec::new(),
            len_chars,
            len_utf16,
            char_limit: CHAR_LIMIT,
        };
        assert(r@ =~= (Draft { text: r.buf@, ..Draft::empty() }));
        Ok(r)
    }
}

impl TryFrom<String> for MessageBuilder {
    type Error = Error;

    fn try_from(value: String) -> (r: Result<Self, Error>)
        ensures
            match r {
                Ok(m) => {
                    &&& value@.len() <= CHAR_LIMIT
                    &&& m@ == (Draft { text: value@, ..Draft::empty() })
                },
                Err(_) => value@.len() > CHAR_LIMIT,
            },
    {
        Self::from_text(value)
    }
}

impl vstd::std_specs::convert::TryFromSpecImpl<String> for MessageBuilder {
    open spec fn obeys_try_from_spec() -> bool {
        false
    }

    open spec fn try_from_spec(value: String) -> Result<Self, Error> {
        arbitrary()
    }
}

/// Writing an item and a newline: the newline comes only after success, and
/// what was written before a failing newline stays.
pub open spec fn writes_line<W: WriteToMessage>(s: W, before: Draft, ok: bool, after: Draft) -> bool {
    ||| !ok && s.writes(before, false, after)
    ||| exists|line: Draft| #[trigger]
        s.writes(before, true, line) && (ok, after) == line.push_text("\n"@)
}

/// Types that can be written into a [`MessageBuilder`], including rich text
/// formatting.
///
/// `writes` says whether writing the item to a draft can have a result (success
/// or not) and leave the draft in another state. For most items there is one
/// such result for each draft. Where an item holds a closure, `writes` leaves
/// open what the closure makes of the draft. For this reason what `to_message`,
/// [`MessageBuilder::write`] and the items that hold other items promise is said
/// of calls of `write_to`, too: they leave what those calls leave.
pub trait WriteToMessage {
    /// The item can be written.
    spec fn ready(&self) -> bool;

    /// What writing the item can make of a draft.
    spec fn writes(&self, before: Draft, ok: bool, after: Draft) -> bool;

    /// Writing keeps a draft valid.
    proof fn writes_valid(&self, before: Draft, ok: bool, after: Draft)
        requires
            self.ready(),
            before.valid(),
            self.writes(before, ok, after),
        ensures
            after.valid(),
    ;

    /// Writes the item into a [`MessageBuilder`].
    fn write_to(&self, message: &mut MessageBuilder) -> (r: Result<(), Error>)
        requires
            self.ready(),
        ensures
            self.writes(old(message)@, r is Ok, final(message)@),
    ;

    /// Converts the item into its plain text content and its entities.
    fn to_message(&self) -> (r: Result<(String, Vec<MessageEntity>), Error>)
        requires
            self.ready(),
        ensures
            match r {
                Ok(m) => exists|d: Draft| #[trigger]
                    self.writes(Draft::empty(), true, d) && m.0@ == d.text && entity_views(m.1@)
                        == d.entities,
                Err(_) => exists|d: Draft| #[trigger] self.writes(Draft::empty(), false, d),
            },
            exists|m: &mut MessageBuilder, x: Result<(), Error>| #[trigger]
                call_ensures(Self::write_to, (self, m), x) && m@ == Draft::empty() && match r {
                    Ok(built) => x is Ok && built.0@ == final(m)@.text && entity_views(built.1@)
                        == final(m)@.entities,
                    Err(_) => x is Err,
                },
    {
        let mut msg = MessageBuilder::new();
        match self.write_to(&mut msg) {
            Ok(()) => {
                assert(self.writes(Draft::empty(), true, msg@));
                Ok(msg.build())
            },
            Err(e) => {
                assert(self.writes(Draft::empty(), false, msg@));
                Err(e)
            },
        }
    }
}

impl WriteToMessage for str {
    open spec fn ready(&self) -> bool {
        true
    }

    open spec fn writes(&self, before: Draft, ok: bool, after: Draft) -> bool {
        (ok, after) == before.push_text(self@)
    }

    proof fn writes_valid(&self, before: Draft, ok: bool, after: Draft) {
        lemma_push_text(before, self@);
    }

    fn write_to(&self, message: &mut MessageBuilder) -> Result<(), Error> {
        message.write_str(self)
    }
}

impl WriteToMessage for String {
    open spec fn ready(&self) -> bool {
        true
    }

    open spec fn writes(&self, before: Draft, ok: bool, after: Draft) -> bool {
        (ok, after) == before.push_text(self@)
    }

    proof fn writes_valid(&self, before: Draft, ok: bool, after: Draft) {
        lemma_push_text(before, self@);
    }

    fn write_to(&self, message: &mut MessageBuilder) -> Result<(), Error> {
        message.write_str(self.as_str())
    }
}

impl WriteToMessage for char {
    open spec fn ready(&self) -> bool {
        true
    }

    open spec fn writes(&self, before: Draft, ok: bool, after: Draft) -> bool {
        (ok, after) == before.push_text(seq![*self])
    }

    proof fn writes_valid(&self, before: Draft, ok: bool, after: Draft) {
        lemma_push_text(before, seq![*self]);
    }

    fn write_to(&self, message: &mut MessageBuilder) -> Result<(), Error> {
        let mut s = String::new();
        s.push(*self);
        assert(s@ =~= seq![*self]);
        message.write_str(s.as_str())
    }
}

impl WriteToMessage for u64 {
    open spec fn ready(&self) -> bool {
        true
    }

    open spec fn writes(&self, before: Draft, ok: bool, after: Draft) -> bool {
        (ok, after) == before.push_text(decimal(*self as nat))
    }

    proof fn writes_valid(&self, before: Draft, ok: bool, after: Draft) {
        lemma_push_text(before, decimal(*self as nat));
    }

    fn write_to(&self, message: &mut MessageBuilder) -> Result<(), Error> {
        let s = decimal_string(*self);
        message.write_str(s.as_str())
    }
}

impl WriteToMessage for i64 {
    open spec fn ready(&self) -> bool {
        true
    }

    open spec fn writes(&self, before: Draft, ok: bool, after: Draft) -> bool {
        (ok, after) == before.push_text(signed_decimal(*self as int))
    }

    proof fn writes_valid(&self, before: Draft, ok: bool, after: Draft) {
        lemma_push_text(before, signed_decimal(*self as int));
    }

    fn write_to(&self, message: &mut MessageBuilder) -> Result<(), Error> {
        let s = signed_decimal_string(*self);
        message.write_str(s.as_str())
    }
}

impl<T: WriteToMessage + ?Sized> WriteToMessage for &T {
    open spec fn ready(&self) -> bool {
        (**self).ready()
    }

    open spec fn writes(&self, before: Draft, ok: bool, after: Draft) -> bool {
        (**self).writes(before, ok, after)
    }

    proof fn writes_valid(&self, before: Draft, ok: bool, after: Draft) {
        (**self).writes_valid(before, ok, after);
    }

    fn write_to(&self, message: &mut MessageBuilder) -> (r: Result<(), Error>)
        ensures
            exists|m: &mut MessageBuilder| #[trigger]
                call_ensures(T::write_to, (&**self, m), r) && *m == *old(message) && *final(m)
                    == *final(message),
    {
        (**self).write_to(message)
    }
}

impl<T: WriteToMessage + ?Sized> WriteToMessage for Box<T> {
    open spec fn ready(&self) -> bool {
        (**self).ready()
    }

    open spec fn writes(&self, before: Draft, ok: bool, after: Draft) -> bool {
        (**self).writes(before, ok, after)
    }

    proof fn writes_valid(&self, before: Draft, ok: bool, after: Draft) {
        (**self).writes_valid(before, ok, after);
    }

    fn write_to(&self, message: &mut MessageBuilder) -> (r: Result<(), Error>)
        ensures
            exists|m: &mut MessageBuilder| #[trigger]
                call_ensures(T::write_to, (&**self, m), r) && *m == *old(message) && *final(m)
                    == *final(message),
    {
        (**self).write_to(message)
    }
}

/// Values that hold a text.
pub trait AsText {
    spec fn text(&self) -> Seq<char>;

    fn as_text(&self) -> (r: &str)
        ensures
            r@ == self.text(),
    ;
}

impl AsText for str {
    open spec fn text(&self) -> Seq<char> {
        self@
    }

    fn as_text(&self) -> &str {
        self
    }
}

impl AsText for String {
    open spec fn text(&self) -> Seq<char> {
        self@
    }

    fn as_text(&self) -> &str {
        self.as_str()
    }
}

impl<T: AsText + ?Sized> AsText for &T {
    open spec fn text(&self) -> Seq<char> {
        (**self).text()
    }

    fn as_text(&self) -> &str {
        (**self).as_text()
    }
}

/// Entity variants, with what some of them carry.
pub enum EntityType<S> {
    Bold,
    Italic,
    Underline,
    Strikethrough,
    Spoiler,
    Code,
    Pre(Option<S>),
    TextLink(S),
    CustomEmoji(S),
    Blockquote,
    ExpandableBlockquote,
}

/// What distinguishes entities apart from their range.
pub struct EntityKind {
    pub type_field: MessageEntityType,
    pub url: Option<Seq<char>>,
    pub language: Option<Seq<char>>,
    pub custom_emoji_id: Option<Seq<char>>,
}

impl EntityKind {
    /// A kind without anything to carry.
    pub open spec fn plain(type_field: MessageEntityType) -> EntityKind {
        EntityKind { type_field, url: None, language: None, custom_emoji_id: None }
    }

    /// The link to `url`.
    pub open spec fn link(url: Seq<char>) -> EntityKind {
        EntityKind { url: Some(url), ..EntityKind::plain(MessageEntityType::TextLink) }
    }

    /// The entity of this kind with a given range.
    pub open spec fn entity(self, offset: nat, length: nat) -> EntityView {
        EntityView {
            type_field: self.type_field,
            offset,
            length,
            url: self.url,
            language: self.language,
            custom_emoji_id: self.custom_emoji_id,
        }
    }
}

impl<S: AsText> EntityType<S> {
    /// What entities of this variant say apart from their range.
    pub open spec fn kind(&self) -> EntityKind {
        match self {
            EntityType::Bold => EntityKind::plain(MessageEntityType::Bold),
            EntityType::Italic => EntityKind::plain(MessageEntityType::Italic),
            EntityType::Underline => EntityKind::plain(MessageEntityType::Underline),
            EntityType::Strikethrough => EntityKind::plain(MessageEntityType::Strikethrough),
            EntityType::Spoiler => EntityKind::plain(MessageEntityType::Spoiler),
            EntityType::Code => EntityKind::plain(MessageEntityType::Code),
            EntityType::Pre(language) => EntityKind {
                language: match language {
                    Some(s) => Some(s.text()),
                    None => None,
                },
                ..EntityKind::plain(MessageEntityType::Pre)
            },
            EntityType::TextLink(url) => EntityKind::link(url.text()),
            EntityType::CustomEmoji(id) => EntityKind {
                custom_emoji_id: Some(id.text()),
                ..EntityKind::plain(MessageEntityType::CustomEmoji)
            },
            EntityType::Blockquote => EntityKind::plain(MessageEntityType::Blockquote),
            EntityType::ExpandableBlockquote => EntityKind::plain(
                MessageEntityType::ExpandableBlockquote,
            ),
        }
    }

    /// The entity of this variant with a given range; the two numbers are cut
    /// to sixteen bits.
    pub fn create_entity(&self, offset: usize, len: usize) -> (e: MessageEntity)
        ensures
            e@ == self.kind().entity(offset as u16 as nat, len as u16 as nat),
    {
        let type_field = match self {
            EntityType::Italic => MessageEntityType::Italic,
            EntityType::Bold => MessageEntityType::Bold,
            EntityType::Strikethrough => MessageEntityType::Strikethrough,
            EntityType::Underline => MessageEntityType::Underline,
            EntityType::Spoiler => MessageEntityType::Spoiler,
            EntityType::TextLink(_) => MessageEntityType::TextLink,
            EntityType::Code => MessageEntityType::Code,
            EntityType::Pre(_) => MessageEntityType::Pre,
            EntityType::CustomEmoji(_) => MessageEntityType::CustomEmoji,
            EntityType::Blockquote => MessageEntityType::Blockquote,
            EntityType::ExpandableBlockquote => MessageEntityType::ExpandableBlockquote,
        };
        let url = match self {
            EntityType::TextLink(url) => Some(url.as_text().to_owned()),
            _ => None,
        };
        let language = match self {
            EntityType::Pre(Some(language)) => Some(language.as_text().to_owned()),
            _ => None,
        };
        let custom_emoji_id = match self {
            EntityType::CustomEmoji(id) => Some(id.as_text().to_owned()),
            _ => None,
        };
        MessageEntity {
            type_field,
            offset: #[verifier::truncate] (offset as u16),
            length: #[verifier::truncate] (len as u16),
            url,
            language,
            custom_emoji_id,
        }
    }
}

/// Wraps an inner writer with an entity tag.
///
/// It is usually not dealt with directly but instead created by one of the
/// helper functions like [`bold`] or [`italic`].
pub struct WithEntity<I, S = String> {
    pub text: I,
    pub entity: EntityType<S>,
}

impl<I: WriteToMessage, S: AsText> WriteToMessage for WithEntity<I, S> {
    open spec fn ready(&self) -> bool {
        self.text.ready()
    }

    open spec fn writes(&self, before: Draft, ok: bool, after: Draft) -> bool {
        if ok {
            exists|bare: Draft| #[trigger]
                self.text.writes(before, true, bare) && after == bare.mark(
                    before,
                    self.entity.kind(),
                )
        } else {
            self.text.writes(before, false, after)
        }
    }

    proof fn writes_valid(&self, before: Draft, ok: bool, after: Draft) {
        if ok {
            let bare = choose|bare: Draft| #[trigger]
                self.text.writes(before, true, bare) && after == bare.mark(
                    before,
                    self.entity.kind(),
                );
            self.text.writes_valid(before, true, bare);
        } else {
            self.text.writes_valid(before, false, after);
        }
    }

    fn write_to(&self, message: &mut MessageBuilder) -> (r: Result<(), Error>)
        ensures
            exists|m: &mut MessageBuilder, x: Result<(), Error>| #[trigger]
                call_ensures(I::write_to, (&self.text, m), x) && *m == *old(message) && x is Ok
                    == r is Ok && final(message)@ == if r is Ok {
                    final(m)@.mark(old(message)@, self.entity.kind())
                } else {
                    final(m)@
                },
    {
        let ghost before = message@;
        let start: usize = message.len_utf16();
        let written = self.text.write_to(message);
        match written {
            Ok(()) => {
                let ghost bare = message@;
                message.mark_since(start, &self.entity, Ghost(before));
                assert(self.text.writes(before, true, bare));
                Ok(())
            },
            Err(e) => Err(e),
        }
    }
}

/// Makes text bold.
pub fn bold<T: WriteToMessage>(text: T) -> (r: WithEntity<T>)
    ensures
        r == (WithEntity { text, entity: EntityType::<String>::Bold }),
        r.ready() == text.ready(),
{
    WithEntity { text, entity: EntityType::Bold }
}

/// Makes text italic.
pub fn italic<T: WriteToMessage>(text: T) -> (r: WithEntity<T>)
    ensures
        r == (WithEntity { text, entity: EntityType::<String>::Italic }),
        r.ready() == text.ready(),
{
    WithEntity { text, entity: EntityType::Italic }
}

/// Adds a strikethrough effect.
pub fn strikethrough<T: WriteToMessage>(text: T) -> (r: WithEntity<T>)
    ensures
        r == (WithEntity { text, entity: EntityType::<String>::Strikethrough }),
        r.ready() == text.ready(),
{
    WithEntity { text, entity: EntityType::Strikethrough }
}

/// Hides text behind a spoiler. Tap to reveal.
pub fn spoiler<T: WriteToMessage>(text: T) -> (r: WithEntity<T>)
    ensures
        r == (WithEntity { text, entity: EntityType::<String>::Spoiler }),
        r.ready() == text.ready(),
{
    WithEntity { text, entity: EntityType::Spoiler }
}

/// Adds an underline.
pub fn underline<T: WriteToMessage>(text: T) -> (r: WithEntity<T>)
    ensures
        r == (WithEntity { text, entity: EntityType::<String>::Underline }),
        r.ready() == text.ready(),
{
    WithEntity { text, entity: EntityType::Underline }
}

/// Formats text as inline code.
pub fn code<T: WriteToMessage>(text: T) -> (r: WithEntity<T>)
    ensures
        r == (WithEntity { text, entity: EntityType::<String>::Code }),
        r.ready() == text.ready(),
{
    WithEntity { text, entity: EntityType::Code }
}

/// Formats text as a quoted block.
pub fn blockquote<T: WriteToMessage>(text: T) -> (r: WithEntity<T>)
    ensures
        r == (WithEntity { text, entity: EntityType::<String>::Blockquote }),
        r.ready() == text.ready(),
{
    WithEntity { text, entity: EntityType::Blockquote }
}

/// Adds an expandable quote block.
pub fn expandable_blockquote<T: WriteToMessage>(text: T) -> (r: WithEntity<T>)
    ensures
        r == (WithEntity { text, entity: EntityType::<String>::ExpandableBlockquote }),
        r.ready() == text.ready(),
{
    WithEntity { text, entity: EntityType::ExpandableBlockquote }
}

/// Creates a custom emoji.
///
/// `alt` must be a valid single emoji as an alternative value for the custom
/// emoji. It is shown in places where a custom emoji cannot be displayed.
pub fn custom_emoji<S: AsText, T: WriteToMessage>(emoji_id: S, alt: T) -> (r: WithEntity<T, S>)
    ensures
        r == (WithEntity { text: alt, entity: EntityType::CustomEmoji(emoji_id) }),
        r.ready() == alt.ready(),
{
    WithEntity { text: alt, entity: EntityType::CustomEmoji(emoji_id) }
}

/// Creates an inline text link.
pub fn text_link<T: WriteToMessage, S: AsText>(url: S, text: T) -> (r: WithEntity<T, S>)
    ensures
        r == (WithEntity { text, entity: EntityType::TextLink(url) }),
        r.ready() == text.ready(),
{
    WithEntity { text, entity: EntityType::TextLink(url) }
}

/// Mentions a user by ID as inline link without using a username.
pub fn text_mention<T: WriteToMessage>(user_id: i64, text: T) -> (r: WithEntity<T>)
    ensures
        r.text == text,
        r.entity.kind() == EntityKind::link("tg://user?id="@ + signed_decimal(user_id as int)),
        r.ready() == text.ready(),
{
    let mut url = "tg://user?id=".to_owned();
    let id = signed_decimal_string(user_id);
    url.append(id.as_str());
    WithEntity { text, entity: EntityType::TextLink(url) }
}

/// Formats text as preformatted code block.
pub fn pre<T: WriteToMessage>(text: T) -> (r: WithEntity<T>)
    ensures
        r == (WithEntity { text, entity: EntityType::<String>::Pre(None) }),
        r.ready() == text.ready(),
{
    WithEntity { text, entity: EntityType::Pre(None) }
}

/// Formats text as preformatted block with language (for syntax highlighting).
pub fn pre_with_language<T: WriteToMessage, S: AsText>(language: S, text: T) -> (r: WithEntity<
    T,
    S,
>)
    ensures
        r == (WithEntity { text, entity: EntityType::Pre(Some(language)) }),
        r.ready() == text.ready(),
{
    WithEntity { text, entity: EntityType::Pre(Some(language)) }
}

/// Two items in a row. If one of them cannot be written, nothing is.
pub struct Chain<A, B>(pub A, pub B);

/// Concatenates two [`WriteToMessage`] items into a single one.
pub fn chain<A: WriteToMessage, B: WriteToMessage>(a: A, b: B) -> (r: Chain<A, B>)
    ensures
        r == Chain(a, b),
        r.ready() == (a.ready() && b.ready()),
        forall|before: Draft, ok: bool, after: Draft| #[trigger]
            r.writes(before, ok, after) == chain_writes(a, b, before, ok, after),
{
    Chain(a, b)
}

impl<A: WriteToMessage, B: WriteToMessage> WriteToMessage for Chain<A, B> {
    open spec fn ready(&self) -> bool {
        self.0.ready() && self.1.ready()
    }

    open spec fn writes(&self, before: Draft, ok: bool, after: Draft) -> bool {
        chain_writes(self.0, self.1, before, ok, after)
    }

    proof fn writes_valid(&self, before: Draft, ok: bool, after: Draft) {
        if ok {
            let middle = choose|middle: Draft| #[trigger]
                self.0.writes(before, true, middle) && self.1.writes(middle, true, after);
            self.0.writes_valid(before, true, middle);
            self.1.writes_valid(middle, true, after);
        }
    }

    fn write_to(&self, message: &mut MessageBuilder) -> (r: Result<(), Error>)
        ensures
            exists|m: &mut MessageBuilder, x: Result<(), Error>| #[trigger]
                call_ensures(A::write_to, (&self.0, m), x) && *m == *old(message) && match x {
                    Ok(_) => exists|n: &mut MessageBuilder, y: Result<(), Error>| #[trigger]
                        call_ensures(B::write_to, (&self.1, n), y) && *n == *final(m) && y is Ok
                            == r is Ok && (r is Ok ==> *final(n) == *final(message)),
                    Err(_) => r is Err,
                },
            r is Err ==> final(message)@ == old(message)@,
    {
        let ghost before = message@;
        let saved = message.clone();
        let first = self.0.write_to(message);
        match first {
            Ok(()) => {
                let ghost middle = message@;
                assert(self.0.writes(before, true, middle));
                let second = self.1.write_to(message);
                match second {
                    Ok(()) => Ok(()),
                    Err(e) => {
                        assert(self.1.writes(middle, false, message@));
                        *message = saved;
                        Err(e)
                    },
                }
            },
            Err(e) => {
                assert(self.0.writes(before, false, message@));
                *message = saved;
                Err(e)
            },
        }
    }
}

/// What two items in a row can make of a draft.
pub open spec fn chain_writes<A: WriteToMessage, B: WriteToMessage>(
    a: A,
    b: B,
    before: Draft,
    ok: bool,
    after: Draft,
) -> bool {
    if ok {
        exists|middle: Draft| #[trigger]
            a.writes(before, true, middle) && b.writes(middle, true, after)
    } else {
        &&& after == before
        &&& can_fail(a, before) || exists|middle: Draft| #[trigger]
            a.writes(before, true, middle) && can_fail(b, middle)
    }
}

/// Writing the item to the draft can fail.
pub open spec fn can_fail<W: WriteToMessage>(item: W, before: Draft) -> bool {
    exists|after: Draft| #[trigger] item.writes(before, false, after)
}

/// A closure that writes to a message.
pub struct FromFn<F>(pub F);

/// Makes an item of a closure.
///
/// Useful for ad hoc formatting or builder-based generation. If the closure
/// returns an error, the [`MessageBuilder`] is reset to its previous state.
pub fn from_fn<F: Fn(&mut MessageBuilder) -> Result<(), Error>>(f: F) -> (r: FromFn<F>)
    ensures
        r == FromFn(f),
        r.ready() == (forall|m: &mut MessageBuilder| #[trigger] call_requires(f, (m,))),
        forall|before: Draft, ok: bool, after: Draft| #[trigger]
            r.writes(before, ok, after) == closure_writes(f, before, ok, after),
{
    FromFn(f)
}

/// What a closure can make of a draft. The result is that of the closure. After
/// an error the draft is what it was before. After success it is valid, and
/// `write_to` says that it is what the closure left.
pub open spec fn closure_writes<F: Fn(&mut MessageBuilder) -> Result<(), Error>>(
    f: F,
    before: Draft,
    ok: bool,
    after: Draft,
) -> bool {
    &&& exists|m: &mut MessageBuilder, r: Result<(), Error>| #[trigger]
        call_ensures(f, (m,), r) && m@ == before && ok == r is Ok
    &&& ok ==> after.valid()
    &&& !ok ==> after == before
}

impl<F: Fn(&mut MessageBuilder) -> Result<(), Error>> WriteToMessage for FromFn<F> {
    /// The closure can be called with any message.
    open spec fn ready(&self) -> bool {
        forall|m: &mut MessageBuilder| #[trigger] call_requires(self.0, (m,))
    }

    open spec fn writes(&self, before: Draft, ok: bool, after: Draft) -> bool {
        closure_writes(self.0, before, ok, after)
    }

    proof fn writes_valid(&self, before: Draft, ok: bool, after: Draft) {
    }

    fn write_to(&self, message: &mut MessageBuilder) -> (r: Result<(), Error>)
        ensures
            exists|m: &mut MessageBuilder| #[trigger]
                call_ensures(self.0, (m,), r) && *m == *old(message) && (r is Ok ==> *final(m)
                    == *final(message)),
            r is Err ==> final(message)@ == old(message)@,
    {
        let saved = message.clone();
        let result = (self.0)(message);
        if result.is_err() {
            *message = saved;
        }
        proof {
            use_type_invariant(&*message);
        }
        result
    }
}

/// A value that is written as [`std::fmt::Display`] shows it.
pub struct Shown<D>(pub D);

/// Makes an item of a value that can be shown. What is written is what
/// `to_string` gives for it.
pub fn shown<D: std::fmt::Display>(value: D) -> (r: Shown<D>)
    ensures
        r == Shown(value),
        r.ready(),
{
    Shown(value)
}

impl<D: std::fmt::Display> WriteToMessage for Shown<D> {
    open spec fn ready(&self) -> bool {
        true
    }

    open spec fn writes(&self, before: Draft, ok: bool, after: Draft) -> bool {
        exists|text: String| #[trigger]
            to_string_from_display_ensures::<D>(&self.0, text) && (ok, after) == before.push_text(
                text@,
            )
    }

    proof fn writes_valid(&self, before: Draft, ok: bool, after: Draft) {
        let text = choose|text: String| #[trigger]
            to_string_from_display_ensures::<D>(&self.0, text) && (ok, after) == before.push_text(
                text@,
            );
        lemma_push_text(before, text@);
    }

    fn write_to(&self, message: &mut MessageBuilder) -> Result<(), Error> {
        let text = self.0.to_string();
        message.write_str(text.as_str())
    }
}

/// A message that can be built fits into Telegram's limit, and its entities
/// mark nonempty ranges of its text.
pub proof fn law_message_fits<W: WriteToMessage>(item: W, ok: bool, built: Draft)
    requires
        item.ready(),
        item.writes(Draft::empty(), ok, built),
    ensures
        built.text.len() <= CHAR_LIMIT,
        built.valid(),
{
    assert(Draft::empty().valid());
    item.writes_valid(Draft::empty(), ok, built);
}

/// Room that a lower limit reserves remains: whatever text is written under the
/// lower limit, a marker that fits into the difference can be written under the
/// full one afterwards.
pub proof fn law_reserved_room_remains(d: Draft, s: Seq<char>, marker: Seq<char>, full: nat)
    requires
        d.text.len() <= d.limit,
        d.limit + marker.len() <= full,
    ensures
        ({
            let after = d.push_text(s).1;
            &&& after.text.len() <= after.limit == d.limit
            &&& Draft { limit: full, ..after }.push_text(marker).0
        }),
{
}

/// An item that marks text leaves the text as it is without the mark.
pub proof fn law_marks_keep_text<I: WriteToMessage, S: AsText>(
    item: WithEntity<I, S>,
    before: Draft,
    ok: bool,
    after: Draft,
)
    requires
        item.writes(before, ok, after),
    ensures
        exists|bare: Draft| #[trigger]
            item.text.writes(before, ok, bare) && bare.text == after.text,
{
    if ok {
        let bare = choose|bare: Draft| #[trigger]
            item.text.writes(before, true, bare) && after == bare.mark(before, item.entity.kind());
        assert(item.text.writes(before, ok, bare) && bare.text == after.text);
    } else {
        assert(item.text.writes(before, ok, after) && after.text == after.text);
    }
}

/// Two items that can be written one after the other can be written as one.
proof fn lemma_chain_succeeds<A: WriteToMessage, B: WriteToMessage>(
    a: A,
    b: B,
    before: Draft,
    middle: Draft,
    after: Draft,
)
    requires
        a.writes(before, true, middle),
        b.writes(middle, true, after),
    ensures
        Chain(a, b).writes(before, true, after),
{
    assert(Chain(a, b).0.writes(before, true, middle));
}

/// If the second of two items can fail after the first one, both together can.
proof fn lemma_chain_fails<A: WriteToMessage, B: WriteToMessage>(
    a: A,
    b: B,
    before: Draft,
    middle: Draft,
)
    requires
        can_fail(a, before) || (a.writes(before, true, middle) && can_fail(b, middle)),
    ensures
        Chain(a, b).writes(before, false, before),
        can_fail(Chain(a, b), before),
{
    if !can_fail(a, before) {
        assert(Chain(a, b).0.writes(before, true, middle));
    }
    assert(Chain(a, b).writes(before, false, before));
}

/// Concatenation is associative: how items are grouped makes no difference.
pub proof fn law_chain_associative<A: WriteToMessage, B: WriteToMessage, C: WriteToMessage>(
    a: A,
    b: B,
    c: C,
    before: Draft,
    ok: bool,
    after: Draft,
)
    ensures
        Chain(Chain(a, b), c).writes(before, ok, after) == Chain(a, Chain(b, c)).writes(
            before,
            ok,
            after,
        ),
{
    let left = Chain(Chain(a, b), c);
    let right = Chain(a, Chain(b, c));
    if ok {
        if left.writes(before, true, after) {
            let m2 = choose|m2: Draft| #[trigger]
                Chain(a, b).writes(before, true, m2) && c.writes(m2, true, after);
            let m1 = choose|m1: Draft| #[trigger]
                a.writes(before, true, m1) && b.writes(m1, true, m2);
            lemma_chain_succeeds(b, c, m1, m2, after);
            lemma_chain_succeeds(a, Chain(b, c), before, m1, after);
        }
        if right.writes(before, true, after) {
            let m1 = choose|m1: Draft| #[trigger]
                a.writes(before, true, m1) && Chain(b, c).writes(m1, true, after);
            let m2 = choose|m2: Draft| #[trigger]
                b.writes(m1, true, m2) && c.writes(m2, true, after);
            lemma_chain_succeeds(a, b, before, m1, m2);
            lemma_chain_succeeds(Chain(a, b), c, before, m2, after);
        }
    } else if after == before {
        if left.writes(before, false, before) {
            if can_fail(a, before) {
                lemma_chain_fails(a, Chain(b, c), before, before);
            } else if can_fail(Chain(a, b), before) {
                let m1 = choose|m1: Draft| #[trigger]
                    a.writes(before, true, m1) && can_fail(b, m1);
                lemma_chain_fails(b, c, m1, m1);
                lemma_chain_fails(a, Chain(b, c), before, m1);
            } else {
                let m2 = choose|m2: Draft| #[trigger]
                    Chain(a, b).writes(before, true, m2) && can_fail(c, m2);
                let m1 = choose|m1: Draft| #[trigger]
                    a.writes(before, true, m1) && b.writes(m1, true, m2);
                lemma_chain_fails(b, c, m1, m2);
                lemma_chain_fails(a, Chain(b, c), before, m1);
            }
        }
        if right.writes(before, false, before) {
            if can_fail(a, before) {
                lemma_chain_fails(a, b, before, before);
                lemma_chain_fails(Chain(a, b), c, before, before);
            } else {
                let m1 = choose|m1: Draft| #[trigger]
                    a.writes(before, true, m1) && can_fail(Chain(b, c), m1);
                if can_fail(b, m1) {
                    lemma_chain_fails(a, b, before, m1);
                    lemma_chain_fails(Chain(a, b), c, before, before);
                } else {
                    let m2 = choose|m2: Draft| #[trigger]
                        b.writes(m1, true, m2) && can_fail(c, m2);
                    lemma_chain_succeeds(a, b, before, m1, m2);
                    lemma_chain_fails(Chain(a, b), c, before, m2);
                }
            }
        }
    }
}

/// A new message is empty and may grow up to Telegram's limit.
pub proof fn law_message_starts_empty(m: MessageBuilder)
    requires
        call_ensures(MessageBuilder::new, (), m),
    ensures
        m@.text.len() == 0,
        m@.entities.len() == 0,
        m@.limit == 4096,
{
}

/// Text is appended as a whole if it fits, and not at all if it does not. Marks
/// and limit stay as they are.
pub proof fn law_text_is_appended(m: &mut MessageBuilder, s: &str, r: Result<(), Error>)
    requires
        call_ensures(MessageBuilder::write_str, (m, s), r),
    ensures
        r is Ok <==> old(m)@.text.len() + s@.len() <= old(m)@.limit,
        r is Ok ==> final(m)@.text == old(m)@.text + s@,
        r is Err ==> final(m)@.text == old(m)@.text,
        final(m)@.entities == old(m)@.entities,
        final(m)@.limit == old(m)@.limit,
{
}

/// Text that was marked is appended like any other, and a mark of the right
/// kind covers it, behind the marks that were there. Where there is no text,
/// there is no mark.
pub proof fn law_marked_text_is_appended<S: AsText>(
    m: &mut MessageBuilder,
    item: WithEntity<&str, S>,
    r: Result<(), Error>,
)
    requires
        call_ensures(MessageBuilder::write::<WithEntity<&str, S>>, (m, item), r),
    ensures
        r is Ok <==> old(m)@.text.len() + item.text@.len() <= old(m)@.limit,
        r is Err ==> final(m)@ == old(m)@,
        r is Ok ==> {
            let text = item.text@;
            let n = old(m)@.entities.len() as int;
            &&& final(m)@.text == old(m)@.text + text
            &&& final(m)@.limit == old(m)@.limit
            &&& text.len() == 0 ==> final(m)@.entities == old(m)@.entities
            &&& text.len() > 0 ==> {
                let e = final(m)@.entities[n];
                &&& final(m)@.entities.len() == n + 1
                &&& final(m)@.entities.take(n) == old(m)@.entities
                &&& e.offset == utf16_len(old(m)@.text)
                &&& e.length == utf16_len(text)
                &&& e.type_field == match item.entity {
                    EntityType::Bold => MessageEntityType::Bold,
                    EntityType::Italic => MessageEntityType::Italic,
                    EntityType::Underline => MessageEntityType::Underline,
                    EntityType::Strikethrough => MessageEntityType::Strikethrough,
                    EntityType::Spoiler => MessageEntityType::Spoiler,
                    EntityType::Code => MessageEntityType::Code,
                    EntityType::Pre(_) => MessageEntityType::Pre,
                    EntityType::TextLink(_) => MessageEntityType::TextLink,
                    EntityType::CustomEmoji(_) => MessageEntityType::CustomEmoji,
                    EntityType::Blockquote => MessageEntityType::Blockquote,
                    EntityType::ExpandableBlockquote => MessageEntityType::ExpandableBlockquote,
                }
                &&& e.url == match item.entity {
                    EntityType::TextLink(url) => Some(url.text()),
                    _ => None,
                }
                &&& e.language == match item.entity {
                    EntityType::Pre(Some(language)) => Some(language.text()),
                    _ => None,
                }
                &&& e.custom_emoji_id == match item.entity {
                    EntityType::CustomEmoji(id) => Some(id.text()),
                    _ => None,
                }
            }
        },
{
    let before = old(m)@;
    let text = item.text@;
    lemma_utf16_len_concat(before.text, text);
    lemma_utf16_len_bounds(text);
    assert(item.writes(before, r is Ok, final(m)@));
    if r is Ok {
        let bare = choose|bare: Draft| #[trigger]
            item.text.writes(before, true, bare) && final(m)@ == bare.mark(
                before,
                item.entity.kind(),
            );
        assert((true, bare) == before.push_text(text));
        let n = before.entities.len() as int;
        if text.len() > 0 {
            assert(final(m)@.entities.take(n) =~= before.entities);
        }
    } else {
        assert(item.text.writes(before, false, final(m)@));
    }
}

/// A line is a text and a line break. If the text does not fit, nothing is
/// written; if only the line break does not, the text stays.
pub proof fn law_lines_end_with_breaks(m: &mut MessageBuilder, s: &str, r: Result<(), Error>)
    requires
        call_ensures(MessageBuilder::writeln::<&str>, (m, s), r),
    ensures
        ({
            let n = old(m)@.text.len() + s@.len();
            &&& r is Ok <==> n + 1 <= old(m)@.limit
            &&& r is Ok ==> final(m)@.text == old(m)@.text + s@ + seq!['\n']
            &&& n > old(m)@.limit ==> final(m)@.text == old(m)@.text
            &&& n == old(m)@.limit ==> final(m)@.text == old(m)@.text + s@
            &&& final(m)@.entities == old(m)@.entities
            &&& final(m)@.limit == old(m)@.limit
        }),
{
    reveal_strlit("\n");
    assert("\n"@ =~= seq!['\n']);
    assert(writes_line(s, old(m)@, r is Ok, final(m)@));
    if exists|line: Draft| #[trigger]
        s.writes(old(m)@, true, line) && (r is Ok, final(m)@) == line.push_text("\n"@) {
        let line = choose|line: Draft| #[trigger]
            s.writes(old(m)@, true, line) && (r is Ok, final(m)@) == line.push_text("\n"@);
        assert((true, line) == old(m)@.push_text(s@));
    } else {
        assert(s.writes(old(m)@, false, final(m)@));
        assert((false, final(m)@) == old(m)@.push_text(s@));
    }
}

/// Two texts in a row are written one behind the other, both or none.
pub proof fn law_chained_texts_are_appended(
    m: &mut MessageBuilder,
    a: &str,
    b: &str,
    item: Chain<&str, &str>,
    r: Result<(), Error>,
)
    requires
        call_ensures(chain::<&str, &str>, (a, b), item),
        call_ensures(MessageBuilder::write::<Chain<&str, &str>>, (m, item), r),
    ensures
        r is Ok <==> old(m)@.text.len() + a@.len() + b@.len() <= old(m)@.limit,
        r is Ok ==> final(m)@.text == old(m)@.text + a@ + b@,
        r is Err ==> final(m)@.text == old(m)@.text,
        final(m)@.entities == old(m)@.entities,
        final(m)@.limit == old(m)@.limit,
{
    let before = old(m)@;
    let after = final(m)@;
    assert(item.writes(before, r is Ok, after));
    if r is Ok {
        let middle = choose|middle: Draft| #[trigger]
            a.writes(before, true, middle) && b.writes(middle, true, after);
        assert((true, middle) == before.push_text(a@));
        assert((true, after) == middle.push_text(b@));
    } else if can_fail(a, before) {
        let x = choose|x: Draft| #[trigger] a.writes(before, false, x);
        assert((false, x) == before.push_text(a@));
    } else {
        let middle = choose|middle: Draft| #[trigger]
            a.writes(before, true, middle) && can_fail(b, middle);
        assert((true, middle) == before.push_text(a@));
        let x = choose|x: Draft| #[trigger] b.writes(middle, false, x);
        assert((false, x) == middle.push_text(b@));
    }
}

/// Each of the styles marks with the kind of entity that it is named after.
pub proof fn law_styles_have_their_entities(
    t: &str,
    plain: (
        WithEntity<&str>,
        WithEntity<&str>,
        WithEntity<&str>,
        WithEntity<&str>,
        WithEntity<&str>,
    ),
    blocks: (WithEntity<&str>, WithEntity<&str>, WithEntity<&str>, WithEntity<&str>),
    s: &str,
    carrying: (WithEntity<&str, &str>, WithEntity<&str, &str>, WithEntity<&str, &str>),
)
    requires
        call_ensures(bold::<&str>, (t,), plain.0),
        call_ensures(italic::<&str>, (t,), plain.1),
        call_ensures(strikethrough::<&str>, (t,), plain.2),
        call_ensures(spoiler::<&str>, (t,), plain.3),
        call_ensures(underline::<&str>, (t,), plain.4),
        call_ensures(code::<&str>, (t,), blocks.0),
        call_ensures(blockquote::<&str>, (t,), blocks.1),
        call_ensures(expandable_blockquote::<&str>, (t,), blocks.2),
        call_ensures(pre::<&str>, (t,), blocks.3),
        call_ensures(custom_emoji::<&str, &str>, (s, t), carrying.0),
        call_ensures(text_link::<&str, &str>, (s, t), carrying.1),
        call_ensures(pre_with_language::<&str, &str>, (s, t), carrying.2),
    ensures
        plain.0.text@ == t@ && plain.0.entity is Bold,
        plain.1.text@ == t@ && plain.1.entity is Italic,
        plain.2.text@ == t@ && plain.2.entity is Strikethrough,
        plain.3.text@ == t@ && plain.3.entity is Spoiler,
        plain.4.text@ == t@ && plain.4.entity is Underline,
        blocks.0.text@ == t@ && blocks.0.entity is Code,
        blocks.1.text@ == t@ && blocks.1.entity is Blockquote,
        blocks.2.text@ == t@ && blocks.2.entity is ExpandableBlockquote,
        blocks.3.text@ == t@ && (blocks.3.entity matches EntityType::Pre(l) && l is None),
        carrying.0.text@ == t@ && (carrying.0.entity matches EntityType::CustomEmoji(id) && id@
            == s@),
        carrying.1.text@ == t@ && (carrying.1.entity matches EntityType::TextLink(url) && url@
            == s@),
        carrying.2.text@ == t@ && (carrying.2.entity matches EntityType::Pre(Some(l)) && l@ == s@),
{
}

/// A limit holds from when it is set, and what is written stays.
pub proof fn law_limit_is_set(m: &mut MessageBuilder, limit: usize)
    requires
        limit <= CHAR_LIMIT,
        call_ensures(MessageBuilder::set_char_limit, (m, limit), ()),
    ensures
        final(m)@.limit == limit,
        final(m)@.text == old(m)@.text,
        final(m)@.entities == old(m)@.entities,
{
}

/// What a message says of itself is right: its text, its length in characters
/// and in UTF-16 code units, and its marks.
pub proof fn law_message_knows_itself(
    m: &MessageBuilder,
    text: &str,
    chars: usize,
    units: usize,
    marks: &[MessageEntity],
    counted: usize,
    built: (String, Vec<MessageEntity>),
)
    requires
        call_ensures(MessageBuilder::as_str, (m,), text),
        call_ensures(MessageBuilder::len_chars, (m,), chars),
        call_ensures(MessageBuilder::len_utf16, (m,), units),
        call_ensures(MessageBuilder::entities, (m,), marks),
        call_ensures(count_utf16, (text,), counted),
        call_ensures(MessageBuilder::build, (*m,), built),
    ensures
        chars == text@.len(),
        units == counted,
        built.0@ == text@,
        entity_views(built.1@) == entity_views(marks@),
        text@ == m@.text,
        entity_views(marks@) == m@.entities,
{
}

/// A message that starts with a text holds it, without marks, unless it is too
/// long.
pub proof fn law_message_starts_with_text(value: String, r: Result<MessageBuilder, Error>)
    requires
        call_ensures(MessageBuilder::from_text, (value,), r),
    ensures
        r is Ok <==> value@.len() <= 4096,
        r matches Ok(m) ==> m@.text == value@ && m@.entities.len() == 0 && m@.limit == 4096,
{
}

/// Numbers are written in decimal.
pub proof fn law_numbers_are_appended(
    m: &mut MessageBuilder,
    n: u64,
    r: Result<(), Error>,
    s: String,
    k: &mut MessageBuilder,
    i: i64,
    q: Result<(), Error>,
    t: String,
)
    requires
        call_ensures(MessageBuilder::write::<u64>, (m, n), r),
        call_ensures(decimal_string, (n,), s),
        call_ensures(MessageBuilder::write::<i64>, (k, i), q),
        call_ensures(signed_decimal_string, (i,), t),
    ensures
        r is Ok ==> final(m)@.text == old(m)@.text + s@,
        r is Ok <==> old(m)@.text.len() + s@.len() <= old(m)@.limit,
        q is Ok ==> final(k)@.text == old(k)@.text + t@,
        q is Ok <==> old(k)@.text.len() + t@.len() <= old(k)@.limit,
{
    assert(n.writes(old(m)@, r is Ok, final(m)@));
    assert(i.writes(old(k)@, q is Ok, final(k)@));
}

/// A mention links to the user with the identifier.
pub proof fn law_mentions_link_to_users(
    user_id: i64,
    t: &str,
    r: WithEntity<&str>,
    id: String,
)
    requires
        call_ensures(text_mention::<&str>, (user_id, t), r),
        call_ensures(signed_decimal_string, (user_id,), id),
    ensures
        r.text@ == t@,
        r.entity.kind().type_field == MessageEntityType::TextLink,
        r.entity.kind().url == Some("tg://user?id="@ + id@),
{
}

/// An entity is made for the range that it is given, as long as that fits into
/// sixteen bits.
pub proof fn law_entity_has_its_range<S: AsText>(
    t: &EntityType<S>,
    offset: usize,
    len: usize,
    e: MessageEntity,
)
    requires
        offset <= u16::MAX,
        len <= u16::MAX,
        call_ensures(EntityType::<S>::create_entity, (t, offset, len), e),
    ensures
        e.offset == offset,
        e.length == len,
        e.url is Some <==> t is TextLink,
        e.custom_emoji_id is Some <==> t is CustomEmoji,
        e.language is Some <==> (*t matches EntityType::Pre(l) && l is Some),
{
}

/// A closure that fails leaves the message as it was.
pub proof fn law_failed_closure_leaves_no_trace<F: Fn(&mut MessageBuilder) -> Result<(), Error>>(
    f: F,
    item: FromFn<F>,
    m: &mut MessageBuilder,
    r: Result<(), Error>,
)
    requires
        call_ensures(from_fn::<F>, (f,), item),
        call_ensures(MessageBuilder::write::<FromFn<F>>, (m, item), r),
    ensures
        r is Err ==> final(m)@ == old(m)@,
{
    assert(item.writes(old(m)@, r is Ok, final(m)@));
}

/// A text becomes a message exactly if it is not too long, and then the message
/// is the text.
pub proof fn law_text_becomes_message(s: String, r: Result<(String, Vec<MessageEntity>), Error>)
    requires
        call_ensures(String::to_message, (&s,), r),
    ensures
        r is Ok <==> s@.len() <= 4096,
        r matches Ok(m) ==> m.0@ == s@ && m.1@.len() == 0,
{
    match r {
        Ok(m) => {
            let d = choose|d: Draft| #[trigger]
                s.writes(Draft::empty(), true, d) && m.0@ == d.text && entity_views(m.1@)
                    == d.entities;
            assert((true, d) == Draft::empty().push_text(s@));
            assert(d.text =~= s@);
            assert(entity_views(m.1@).len() == m.1@.len());
        },
        Err(_) => {
            let d = choose|d: Draft| #[trigger] s.writes(Draft::empty(), false, d);
            assert((false, d) == Draft::empty().push_text(s@));
        },
    }
}

} // verus!
