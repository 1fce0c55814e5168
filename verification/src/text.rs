//! Character sequences: UTF-16 lengths, decimal numbers, prefixes, joining and
//! trimming. Everything is stated over the characters of a string.

use vstd::prelude::*;
use vstd::string::*;

verus! {

/// The number of UTF-16 code units that one character takes.
pub open spec fn utf16_units(c: char) -> nat {
    if c as u32 >= 0x10000 {
        2
    } else {
        1
    }
}

/// The number of UTF-16 code units of a text.
pub open spec fn utf16_len(s: Seq<char>) -> nat
    decreases s.len(),
{
    if s.len() == 0 {
        0
    } else {
        utf16_len(s.drop_last()) + utf16_units(s.last())
    }
}

/// A text has at least one and at most two code units per character.
pub proof fn lemma_utf16_len_bounds(s: Seq<char>)
    ensures
        s.len() <= utf16_len(s) <= 2 * s.len(),
    decreases s.len(),
{
    if s.len() > 0 {
        lemma_utf16_len_bounds(s.drop_last());
    }
}

/// Code units add up over concatenation.
pub proof fn lemma_utf16_len_concat(a: Seq<char>, b: Seq<char>)
    ensures
        utf16_len(a + b) == utf16_len(a) + utf16_len(b),
    decreases b.len(),
{
    if b.len() == 0 {
        assert(a + b =~= a);
    } else {
        assert((a + b).drop_last() =~= a + b.drop_last());
        lemma_utf16_len_concat(a, b.drop_last());
    }
}

/// Counts the UTF-16 code units of a text.
pub fn count_utf16(s: &str) -> (n: usize)
    requires
        2 * s@.len() <= usize::MAX,
    ensures
        n == utf16_len(s@),
{
    let mut n: usize = 0;
    for c in it: s.chars()
        invariant
            it.seq() == s@,
            2 * s@.len() <= usize::MAX,
            n == utf16_len(s@.take(it.index() as int)),
            n <= 2 * it.index(),
    {
        assert(s@.take(it.index() + 1).drop_last() =~= s@.take(it.index() as int));
        if c as u32 >= 0x10000 {
            n = n + 2;
        } else {
            n = n + 1;
        }
    }
    assert(s@.take(s@.len() as int) =~= s@);
    n
}

/// Whether two texts are the same, byte by byte.
pub(crate) fn same_text(a: &str, b: &str) -> (r: bool)
    ensures
        r == (a@ == b@),
{
    proof {
        vstd::utf8::encode_utf8_decode_utf8(a@);
        vstd::utf8::encode_utf8_decode_utf8(b@);
    }
    let x = a.as_bytes();
    let y = b.as_bytes();
    if x.len() != y.len() {
        return false;
    }
    let mut i: usize = 0;
    while i < x.len()
        invariant
            i <= x@.len(),
            x@.len() == y@.len(),
            x@ == a.spec_bytes(),
            y@ == b.spec_bytes(),
            forall|j: int| 0 <= j < i ==> x@[j] == y@[j],
        decreases x@.len() - i,
    {
        if x[i] != y[i] {
            assert(x@[i as int] != y@[i as int]);
            return false;
        }
        i = i + 1;
    }
    assert(x@ =~= y@);
    true
}

/// `String::push`: appends one character at the end of the string.
pub assume_specification[ String::push ](s: &mut String, c: char)
    ensures
        final(s)@ == old(s)@.push(c),
;

/// The decimal digit with the value `d`.
pub open spec fn digit(d: nat) -> char {
    (48 + d) as char
}

/// The decimal digits of a number, without leading zeros.
pub open spec fn decimal(n: nat) -> Seq<char>
    decreases n,
{
    if n < 10 {
        seq![digit(n)]
    } else {
        decimal(n / 10).push(digit(n % 10))
    }
}

/// The decimal digits of a number, after a minus sign if it is negative.
pub open spec fn signed_decimal(i: int) -> Seq<char> {
    if i < 0 {
        seq!['-'] + decimal((-i) as nat)
    } else {
        decimal(i as nat)
    }
}

/// Writes a number in decimal.
pub fn decimal_string(n: u64) -> (s: String)
    ensures
        s@ == decimal(n as nat),
    decreases n,
{
    let c = (48 + (n % 10) as u8) as char;
    if n < 10 {
        let mut s = String::new();
        s.push(c);
        assert(s@ =~= decimal(n as nat));
        s
    } else {
        let mut s = decimal_string(n / 10);
        s.push(c);
        s
    }
}

/// Writes a signed number in decimal.
pub fn signed_decimal_string(i: i64) -> (s: String)
    ensures
        s@ == signed_decimal(i as int),
{
    if i < 0 {
        let magnitude: u64 = (-(i as i128)) as u64;
        let digits = decimal_string(magnitude);
        let mut s = String::new();
        s.push('-');
        s.append(digits.as_str());
        assert(s@ =~= signed_decimal(i as int));
        s
    } else {
        decimal_string(i as u64)
    }
}

/// Whether a character is one of the digits `0` to `9`.
pub open spec fn is_digit(c: char) -> bool {
    '0' <= c && c <= '9'
}

/// Whether every character is a digit.
pub open spec fn all_digits(s: Seq<char>) -> bool {
    forall|i: int| 0 <= i < s.len() ==> is_digit(#[trigger] s[i])
}

/// The number that a sequence of digits denotes.
pub open spec fn digits_value(s: Seq<char>) -> nat
    decreases s.len(),
{
    if s.len() == 0 {
        0
    } else {
        10 * digits_value(s.drop_last()) + (s.last() as u32 - 48) as nat
    }
}

/// What an unsigned decimal number reads as: digits, after an optional plus
/// sign, with a value of at most `max`.
pub open spec fn parsed_number(s: Seq<char>, max: nat) -> Option<nat> {
    let digits = if s.len() > 0 && s[0] == '+' {
        s.skip(1)
    } else {
        s
    };
    if digits.len() > 0 && all_digits(digits) && digits_value(digits) <= max {
        Some(digits_value(digits))
    } else {
        None
    }
}

/// More digits never make the value smaller.
pub proof fn lemma_digits_value_grows(s: Seq<char>, k: int)
    requires
        0 <= k <= s.len(),
        all_digits(s),
    ensures
        digits_value(s.take(k)) <= digits_value(s),
    decreases s.len() - k,
{
    if k == s.len() {
        assert(s.take(k) =~= s);
    } else {
        lemma_digits_value_grows(s, k + 1);
        assert(s.take(k + 1).drop_last() =~= s.take(k));
        assert(is_digit(s[k]));
    }
}

/// The digits of a number denote that number.
pub proof fn lemma_decimal_value(n: nat)
    ensures
        all_digits(decimal(n)),
        decimal(n).len() > 0,
        digits_value(decimal(n)) == n,
        decimal(n)[0] != '+',
    decreases n,
{
    let d = decimal(n);
    if n < 10 {
        assert(d.drop_last() =~= Seq::<char>::empty());
        assert(digits_value(d.drop_last()) == 0);
        assert(d.last() == digit(n));
    } else {
        lemma_decimal_value(n / 10);
        assert(d.drop_last() =~= decimal(n / 10));
        assert forall|i: int| 0 <= i < d.len() implies is_digit(#[trigger] d[i]) by {
            if i < d.len() - 1 {
                assert(d[i] == decimal(n / 10)[i]);
            }
        }
        assert(d[0] == decimal(n / 10)[0]);
    }
}

/// Writing a number in decimal and reading it back gives the number.
pub proof fn law_decimal_round_trip(n: nat, max: nat)
    requires
        n <= max,
    ensures
        parsed_number(decimal(n), max) == Some(n),
{
    lemma_decimal_value(n);
}

/// Reads an unsigned decimal number.
pub fn parse_number(s: &str) -> (r: Option<u64>)
    ensures
        match r {
            Some(n) => parsed_number(s@, u64::MAX as nat) == Some(n as nat),
            None => parsed_number(s@, u64::MAX as nat) is None,
        },
{
    let mut value: u64 = 0;
    let ghost mut digits: int = 0;
    let mut any = false;
    let mut signed = false;
    let ghost body: Seq<char> = if s@.len() > 0 && s@[0] == '+' {
        s@.skip(1)
    } else {
        s@
    };
    let ghost offset: int = if s@.len() > 0 && s@[0] == '+' {
        1
    } else {
        0
    };
    assert(body.take(0) =~= Seq::<char>::empty());
    for c in it: s.chars()
        invariant
            it.seq() == s@,
            offset == (if s@.len() > 0 && s@[0] == '+' {
                1int
            } else {
                0int
            }),
            body =~= s@.skip(offset),
            signed == (it.index() > 0 && offset == 1),
            digits == (if it.index() == 0 {
                0
            } else {
                it.index() - offset
            }),
            0 <= digits <= body.len(),
            any == (digits > 0),
            all_digits(body.take(digits)),
            value == digits_value(body.take(digits)),
            parsed_number(s@, u64::MAX as nat) == (if body.len() > 0 && all_digits(body) && digits_value(
                body,
            ) <= u64::MAX {
                Some(digits_value(body))
            } else {
                None
            }),
    {
        if !signed && !any && c == '+' {
            signed = true;
        } else {
            let ghost k = digits;
            assert(body[k] == c);
            assert(body.take(k + 1).drop_last() =~= body.take(k));
            if !('0' <= c && c <= '9') {
                assert(!is_digit(body[k]));
                return None;
            }
            let d: u64 = (c as u32 - 48) as u64;
            proof {
                if all_digits(body) {
                    lemma_digits_value_grows(body, k + 1);
                }
            }
            if value > (u64::MAX - d) / 10 {
                return None;
            }
            value = 10 * value + d;
            any = true;
            proof {
                digits = digits + 1;
            }
            assert forall|i: int| 0 <= i < k + 1 implies is_digit(#[trigger] body.take(k + 1)[i]) by {
                if i < k {
                    assert(body.take(k + 1)[i] == body.take(k)[i]);
                }
            }
        }
    }
    assert(body.take(body.len() as int) =~= body);
    if any {
        Some(value)
    } else {
        None
    }
}

/// Whether `s` starts with `prefix`.
pub open spec fn has_prefix(s: Seq<char>, prefix: Seq<char>) -> bool {
    prefix.len() <= s.len() && s.take(prefix.len() as int) == prefix
}

/// What is left of `s` after `prefix`, if it starts with it.
pub open spec fn stripped(s: Seq<char>, prefix: Seq<char>) -> Option<Seq<char>> {
    if has_prefix(s, prefix) {
        Some(s.skip(prefix.len() as int))
    } else {
        None
    }
}

/// The text of an optional string.
pub open spec fn opt_text(s: Option<&str>) -> Option<Seq<char>> {
    match s {
        Some(t) => Some(t@),
        None => None,
    }
}

/// The text of an optional owned string.
pub open spec fn opt_string(s: Option<String>) -> Option<Seq<char>> {
    match s {
        Some(t) => Some(t@),
        None => None,
    }
}

/// The text of an optional string.
pub fn as_text(s: &Option<String>) -> (r: Option<&str>)
    ensures
        opt_text(r) == opt_string(*s),
{
    match s {
        Some(t) => Some(t.as_str()),
        None => None,
    }
}

/// Takes `prefix` off the start of `s`.
pub fn strip_prefix<'a>(s: &'a str, prefix: &str) -> (r: Option<&'a str>)
    ensures
        opt_text(r) == stripped(s@, prefix@),
{
    let n: usize = prefix.unicode_len();
    let len: usize = s.unicode_len();
    if n > len {
        return None;
    }
    if same_text(s.substring_char(0, n), prefix) {
        assert(s@.subrange(0, n as int) =~= s@.take(n as int));
        let rest = s.substring_char(n, len);
        assert(rest@ =~= s@.skip(n as int));
        Some(rest)
    } else {
        assert(s@.subrange(0, n as int) =~= s@.take(n as int));
        None
    }
}

/// Where a character occurs first in a text: at an index below the length, or
/// at the length if it does not occur.
pub open spec fn find_char(s: Seq<char>, c: char) -> int
    decreases s.len(),
{
    if s.len() == 0 || s[0] == c {
        0
    } else {
        1 + find_char(s.skip(1), c)
    }
}

/// What `find_char` finds is the first occurrence.
pub proof fn lemma_find_char(s: Seq<char>, c: char)
    ensures
        0 <= find_char(s, c) <= s.len(),
        forall|i: int| 0 <= i < find_char(s, c) ==> s[i] != c,
        find_char(s, c) < s.len() ==> s[find_char(s, c)] == c,
        find_char(s, c) < s.len() <==> s.contains(c),
    decreases s.len(),
{
    if s.len() > 0 && s[0] != c {
        lemma_find_char(s.skip(1), c);
        assert forall|i: int| 0 <= i < find_char(s, c) implies s[i] != c by {
            if i > 0 {
                assert(s.skip(1)[i - 1] == s[i]);
            }
        }
    }
}

/// The first occurrence is the only index with an occurrence and none before.
pub proof fn lemma_find_char_unique(s: Seq<char>, c: char, k: int)
    requires
        0 <= k <= s.len(),
        forall|i: int| 0 <= i < k ==> s[i] != c,
        k < s.len() ==> s[k] == c,
    ensures
        find_char(s, c) == k,
{
    lemma_find_char(s, c);
}

/// Finds the first occurrence of a character.
pub fn find(s: &str, c: char) -> (r: Option<usize>)
    ensures
        match r {
            Some(i) => i == find_char(s@, c) && i < s@.len(),
            None => find_char(s@, c) == s@.len(),
        },
{
    let len: usize = s.unicode_len();
    let mut i: usize = 0;
    for x in it: s.chars()
        invariant
            it.seq() == s@,
            len == s@.len(),
            i == it.index(),
            forall|j: int| 0 <= j < i ==> s@[j] != c,
    {
        if x == c {
            proof {
                lemma_find_char_unique(s@, c, i as int);
            }
            return Some(i);
        }
        i = i + 1;
    }
    proof {
        lemma_find_char_unique(s@, c, s@.len() as int);
    }
    None
}

/// The parts of a text before and after the first occurrence of a character.
pub open spec fn split_at_char(s: Seq<char>, c: char) -> Option<(Seq<char>, Seq<char>)> {
    let i = find_char(s, c);
    if i < s.len() {
        Some((s.take(i), s.skip(i + 1)))
    } else {
        None
    }
}

/// Splits a text at the first occurrence of a character.
pub fn split_once<'a>(s: &'a str, c: char) -> (r: Option<(&'a str, &'a str)>)
    ensures
        match r {
            Some((a, b)) => split_at_char(s@, c) == Some((a@, b@)),
            None => split_at_char(s@, c) is None,
        },
{
    proof {
        lemma_find_char(s@, c);
    }
    let len: usize = s.unicode_len();
    match find(s, c) {
        Some(i) => {
            let a = s.substring_char(0, i);
            let b = s.substring_char(i + 1, len);
            assert(a@ =~= s@.take(i as int));
            assert(b@ =~= s@.skip(i + 1));
            Some((a, b))
        },
        None => None,
    }
}

/// Whether one of the texts equals `s`.
pub open spec fn listed(texts: Seq<&str>, s: Seq<char>) -> bool {
    exists|i: int| 0 <= i < texts.len() && #[trigger] texts[i]@ == s
}

/// Looks for a text in a list.
pub fn is_listed(texts: &[&str], s: &str) -> (r: bool)
    ensures
        r == listed(texts@, s@),
{
    let mut i: usize = 0;
    while i < texts.len()
        invariant
            i <= texts@.len(),
            forall|j: int| 0 <= j < i ==> texts@[j]@ != s@,
        decreases texts@.len() - i,
    {
        if same_text(texts[i], s) {
            return true;
        }
        i = i + 1;
    }
    false
}

/// `std::str::from_utf8`: bytes that are UTF-8 are the text that they encode,
/// and other bytes are none.
#[verifier::external_body]
pub(crate) fn from_utf8(bytes: &[u8]) -> (r: Option<&str>)
    ensures
        match r {
            Some(s) => vstd::utf8::valid_utf8(bytes@) && s@ == vstd::utf8::decode_utf8(bytes@),
            None => !vstd::utf8::valid_utf8(bytes@),
        },
{
    std::str::from_utf8(bytes).ok()
}

/// A number and its digits determine each other.
pub proof fn law_decimal_injective(a: int, b: int)
    requires
        signed_decimal(a) == signed_decimal(b),
    ensures
        a == b,
{
    let sa = signed_decimal(a);
    let sb = signed_decimal(b);
    lemma_decimal_value(if a < 0 { (-a) as nat } else { a as nat });
    lemma_decimal_value(if b < 0 { (-b) as nat } else { b as nat });
    if a < 0 {
        assert(sa[0] == '-');
        if b >= 0 {
            assert(is_digit(decimal(b as nat)[0]));
        } else {
            assert(sa.skip(1) =~= decimal((-a) as nat));
            assert(sb.skip(1) =~= decimal((-b) as nat));
        }
    } else if b < 0 {
        assert(sb[0] == '-');
        assert(is_digit(decimal(a as nat)[0]));
    }
}

/// An ASCII letter in lower case, any other character as it is.
pub open spec fn ascii_lower(c: char) -> char {
    if 'A' <= c && c <= 'Z' {
        (c as u32 + 32) as char
    } else {
        c
    }
}

/// A text with its ASCII letters in lower case.
pub open spec fn ascii_lowercased(s: Seq<char>) -> Seq<char> {
    s.map_values(|c: char| ascii_lower(c))
}

/// Puts the ASCII letters of a text in lower case.
pub fn ascii_lowercase(s: &str) -> (r: String)
    ensures
        r@ == ascii_lowercased(s@),
{
    let mut r = String::new();
    assert(r@ =~= ascii_lowercased(s@.take(0)));
    for c in it: s.chars()
        invariant
            it.seq() == s@,
            r@ == ascii_lowercased(s@.take(it.index() as int)),
    {
        let lower = if 'A' <= c && c <= 'Z' {
            ((c as u32 + 32) as u8) as char
        } else {
            c
        };
        r.push(lower);
        assert(r@ =~= ascii_lowercased(s@.take(it.index() + 1)));
    }
    assert(s@.take(s@.len() as int) =~= s@);
    r
}

/// White space: the characters with that Unicode property.
pub open spec fn is_white(c: char) -> bool {
    let n = c as u32;
    ||| 0x9 <= n <= 0xd
    ||| n == 0x20
    ||| n == 0x85
    ||| n == 0xa0
    ||| n == 0x1680
    ||| 0x2000 <= n <= 0x200a
    ||| n == 0x2028
    ||| n == 0x2029
    ||| n == 0x202f
    ||| n == 0x205f
    ||| n == 0x3000
}

/// Whether a character is white space.
pub fn is_white_space(c: char) -> (r: bool)
    ensures
        r == is_white(c),
{
    let n: u32 = c as u32;
    (0x9 <= n && n <= 0xd) || n == 0x20 || n == 0x85 || n == 0xa0 || n == 0x1680 || (0x2000 <= n
        && n <= 0x200a) || n == 0x2028 || n == 0x2029 || n == 0x202f || n == 0x205f || n == 0x3000
}

/// A text without white space at its start.
pub open spec fn trimmed_start(s: Seq<char>) -> Seq<char>
    decreases s.len(),
{
    if s.len() > 0 && is_white(s[0]) {
        trimmed_start(s.skip(1))
    } else {
        s
    }
}

/// A text without white space at its end.
pub open spec fn trimmed_end(s: Seq<char>) -> Seq<char>
    decreases s.len(),
{
    if s.len() > 0 && is_white(s.last()) {
        trimmed_end(s.drop_last())
    } else {
        s
    }
}

/// A text without white space at its ends.
pub open spec fn trimmed(s: Seq<char>) -> Seq<char> {
    trimmed_end(trimmed_start(s))
}

/// Takes white space off the ends of a text.
pub fn trim(s: &str) -> (r: &str)
    ensures
        r@ == trimmed(s@),
{
    let len: usize = s.unicode_len();
    let mut start: usize = 0;
    assert(s@.skip(0) =~= s@);
    while start < len && is_white_space(s.get_char(start))
        invariant
            start <= len,
            len == s@.len(),
            trimmed_start(s@) == trimmed_start(s@.skip(start as int)),
        decreases len - start,
    {
        assert(s@.skip(start as int).skip(1) =~= s@.skip(start + 1));
        start = start + 1;
    }
    let mut end: usize = len;
    assert(s@.subrange(start as int, len as int) =~= s@.skip(start as int));
    assert(trimmed_start(s@) == s@.skip(start as int));
    while end > start && is_white_space(s.get_char(end - 1))
        invariant
            start <= end <= len,
            len == s@.len(),
            trimmed(s@) == trimmed_end(s@.subrange(start as int, end as int)),
        decreases end - start,
    {
        let ghost t = s@.subrange(start as int, end as int);
        assert(t.drop_last() =~= s@.subrange(start as int, end - 1));
        assert(t.last() == s@[end - 1]);
        end = end - 1;
    }
    s.substring_char(start, end)
}

/// The characters of each string.
pub open spec fn string_views(strings: Seq<String>) -> Seq<Seq<char>> {
    strings.map_values(|s: String| s@)
}

/// Texts one after the other, with something between them.
pub open spec fn joined(texts: Seq<Seq<char>>, separator: Seq<char>) -> Seq<char>
    decreases texts.len(),
{
    if texts.len() == 0 {
        Seq::empty()
    } else if texts.len() == 1 {
        texts[0]
    } else {
        joined(texts.drop_last(), separator) + separator + texts.last()
    }
}

/// Joins strings.
pub fn join(strings: &Vec<String>, separator: &str) -> (r: String)
    ensures
        r@ == joined(string_views(strings@), separator@),
{
    let ghost all = string_views(strings@);
    let mut r = String::new();
    let mut i: usize = 0;
    assert(r@ =~= joined(all.take(0), separator@));
    while i < strings.len()
        invariant
            i <= strings@.len(),
            all == string_views(strings@),
            r@ == joined(all.take(i as int), separator@),
        decreases strings@.len() - i,
    {
        let ghost shown = all.take(i + 1);
        assert(shown.drop_last() =~= all.take(i as int));
        assert(shown.last() == strings@[i as int]@);
        if i > 0 {
            r.append(separator);
        }
        r.append(strings[i].as_str());
        assert(r@ =~= joined(shown, separator@));
        i = i + 1;
    }
    assert(all.take(all.len() as int) =~= all);
    r
}

/// The parts of a text between the occurrences of a character.
pub open spec fn split_parts(s: Seq<char>, c: char) -> Seq<Seq<char>>
    decreases s.len(),
    when true
    via split_parts_shrinks
{
    let i = find_char(s, c);
    if i < s.len() {
        seq![s.take(i)] + split_parts(s.skip(i + 1), c)
    } else {
        seq![s]
    }
}

#[via_fn]
proof fn split_parts_shrinks(s: Seq<char>, c: char) {
    lemma_find_char(s, c);
}

/// Splits a text at each occurrence of a character.
pub fn split<'a>(s: &'a str, c: char) -> (r: Vec<&'a str>)
    ensures
        r@.map_values(|t: &str| t@) == split_parts(s@, c),
{
    let mut parts: Vec<&'a str> = Vec::new();
    let mut rest: &'a str = s;
    loop
        invariant
            parts@.map_values(|t: &str| t@) + split_parts(rest@, c) == split_parts(s@, c),
        decreases rest@.len(),
    {
        let ghost before = parts@.map_values(|t: &str| t@);
        proof {
            lemma_find_char(rest@, c);
        }
        match split_once(rest, c) {
            Some((a, b)) => {
                parts.push(a);
                proof {
                    let after = parts@.map_values(|t: &str| t@);
                    assert(after =~= before.push(a@));
                    assert(split_parts(rest@, c) =~= seq![a@] + split_parts(b@, c));
                    assert(after + split_parts(b@, c) =~= before + split_parts(rest@, c));
                }
                rest = b;
            },
            None => {
                parts.push(rest);
                proof {
                    let after = parts@.map_values(|t: &str| t@);
                    assert(after =~= before + seq![rest@]);
                }
                return parts;
            },
        }
    }
}

/// Whether a text ends with a character.
pub fn ends_with_char(s: &str, c: char) -> (r: bool)
    ensures
        r == (s@.len() > 0 && s@.last() == c),
{
    let len: usize = s.unicode_len();
    len > 0 && s.get_char(len - 1) == c
}

/// A text that comes before another one: at the first place where they differ
/// it has the lower character, or it ends there.
pub open spec fn text_before(a: Seq<char>, b: Seq<char>) -> bool
    decreases a.len(),
{
    if b.len() == 0 {
        false
    } else if a.len() == 0 {
        true
    } else if a[0] != b[0] {
        a[0] < b[0]
    } else {
        text_before(a.skip(1), b.skip(1))
    }
}

/// The order of texts is strict.
pub proof fn lemma_text_before_irreflexive(a: Seq<char>)
    ensures
        !text_before(a, a),
    decreases a.len(),
{
    if a.len() > 0 {
        lemma_text_before_irreflexive(a.skip(1));
    }
}

/// The order of texts is transitive.
pub proof fn lemma_text_before_transitive(a: Seq<char>, b: Seq<char>, c: Seq<char>)
    requires
        text_before(a, b),
        text_before(b, c),
    ensures
        text_before(a, c),
    decreases a.len(),
{
    if a.len() > 0 && b.len() > 0 && c.len() > 0 && a[0] == b[0] && b[0] == c[0] {
        lemma_text_before_transitive(a.skip(1), b.skip(1), c.skip(1));
    }
}

/// Of two different texts one comes before the other.
pub proof fn lemma_text_before_total(a: Seq<char>, b: Seq<char>)
    ensures
        text_before(a, b) || text_before(b, a) || a == b,
    decreases a.len(),
{
    if a.len() == 0 && b.len() == 0 {
        assert(a =~= b);
    } else if a.len() > 0 && b.len() > 0 && a[0] == b[0] {
        lemma_text_before_total(a.skip(1), b.skip(1));
        if a.skip(1) == b.skip(1) {
            assert(a =~= seq![a[0]] + a.skip(1));
            assert(b =~= seq![b[0]] + b.skip(1));
        }
    }
}

/// Whether a text comes before another one.
pub fn is_text_before(a: &str, b: &str) -> (r: bool)
    ensures
        r == text_before(a@, b@),
{
    let n: usize = a.unicode_len();
    let m: usize = b.unicode_len();
    let mut i: usize = 0;
    assert(a@.skip(0) =~= a@);
    assert(b@.skip(0) =~= b@);
    while i < n && i < m
        invariant
            n == a@.len(),
            m == b@.len(),
            i <= n,
            i <= m,
            text_before(a@, b@) == text_before(a@.skip(i as int), b@.skip(i as int)),
        decreases n - i,
    {
        let x = a.get_char(i);
        let y = b.get_char(i);
        if x != y {
            return x < y;
        }
        assert(a@.skip(i as int).skip(1) =~= a@.skip(i + 1));
        assert(b@.skip(i as int).skip(1) =~= b@.skip(i + 1));
        i = i + 1;
    }
    i < m
}

/// A prefix comes off exactly the texts that start with it, and nothing else
/// does: what is left, put behind the prefix again, is the text.
pub proof fn law_prefix_comes_off(s: &str, prefix: &str, r: Option<&str>, rest: Seq<char>)
    requires
        call_ensures(strip_prefix, (s, prefix), r),
    ensures
        r matches Some(left) ==> s@ == prefix@ + left@,
        s@ == prefix@ + rest ==> (r matches Some(left) && left@ == rest),
{
    if let Some(left) = r {
        assert(s@ =~= prefix@ + left@);
    }
    if s@ == prefix@ + rest {
        assert(s@.take(prefix@.len() as int) =~= prefix@);
        assert(s@.skip(prefix@.len() as int) =~= rest);
    }
}

/// What is found is the first occurrence, and something is found exactly if
/// there is one.
pub proof fn law_first_is_found(s: &str, c: char, r: Option<usize>)
    requires
        call_ensures(find, (s, c), r),
    ensures
        r matches Some(i) ==> i < s@.len() && s@[i as int] == c && !s@.take(i as int).contains(c),
        r is None <==> !s@.contains(c),
{
    lemma_find_char(s@, c);
    match r {
        Some(i) => {
            assert(s@[i as int] == c);
            if s@.take(i as int).contains(c) {
                let j = s@.take(i as int).index_of(c);
                assert(s@[j] == c);
            }
        },
        None => {
            if s@.contains(c) {
                let j = s@.index_of(c);
                assert(s@[j] != c);
            }
        },
    }
}

/// The two parts of a split text and the character between them are the text,
/// and the first part does not hold the character.
pub proof fn law_split_once_can_be_undone(s: &str, c: char, r: Option<(&str, &str)>)
    requires
        call_ensures(split_once, (s, c), r),
    ensures
        r matches Some((a, b)) ==> s@ == a@ + seq![c] + b@ && !a@.contains(c),
        r is None <==> !s@.contains(c),
{
    lemma_find_char(s@, c);
    let i = find_char(s@, c);
    match r {
        Some((a, b)) => {
            assert(s@[i] == c);
            assert(s@ =~= a@ + seq![c] + b@);
            if a@.contains(c) {
                let j = a@.index_of(c);
                assert(s@[j] == c);
            }
        },
        None => {
            if s@.contains(c) {
                let j = s@.index_of(c);
                assert(s@[j] != c);
            }
        },
    }
}

pub proof fn lemma_split_parts(s: Seq<char>, c: char)
    ensures
        joined(split_parts(s, c), seq![c]) == s,
        split_parts(s, c).len() > 0,
        forall|i: int|
            0 <= i < split_parts(s, c).len() ==> !(#[trigger] split_parts(s, c)[i]).contains(c),
    decreases s.len(),
{
    lemma_find_char(s, c);
    let i = find_char(s, c);
    if i < s.len() {
        let head = s.take(i);
        let tail = s.skip(i + 1);
        lemma_split_parts(tail, c);
        let rest = split_parts(tail, c);
        let parts = split_parts(s, c);
        assert(parts =~= seq![head] + rest);
        lemma_joined_front(head, rest, seq![c]);
        assert(s =~= head + seq![c] + tail);
        assert forall|k: int| 0 <= k < parts.len() implies !(#[trigger] parts[k]).contains(c) by {
            if k == 0 {
                if head.contains(c) {
                    let j = head.index_of(c);
                    assert(s[j] == c);
                }
            } else {
                assert(parts[k] == rest[k - 1]);
            }
        }
    } else {
        let parts = split_parts(s, c);
        assert(parts =~= seq![s]);
        if s.contains(c) {
            let j = s.index_of(c);
            assert(s[j] != c);
        }
    }
}

proof fn lemma_joined_front(head: Seq<char>, rest: Seq<Seq<char>>, separator: Seq<char>)
    requires
        rest.len() > 0,
    ensures
        joined(seq![head] + rest, separator) == head + separator + joined(rest, separator),
    decreases rest.len(),
{
    let all = seq![head] + rest;
    assert(all.drop_last() =~= seq![head] + rest.drop_last());
    if rest.len() == 1 {
        assert(all.drop_last() =~= seq![head]);
        assert(joined(all.drop_last(), separator) == head);
    } else {
        lemma_joined_front(head, rest.drop_last(), separator);
        assert(joined(all, separator) =~= head + separator + joined(rest, separator));
    }
}

/// Splitting a text can be undone: the parts with the character between them are
/// the text, and no part holds the character.
pub proof fn law_split_can_be_undone(
    s: &str,
    c: char,
    parts: Vec<&str>,
    strings: Vec<String>,
    separator: &str,
    r: String,
)
    requires
        call_ensures(split, (s, c), parts),
        strings@.len() == parts@.len(),
        forall|i: int| 0 <= i < parts@.len() ==> #[trigger] strings@[i]@ == parts@[i]@,
        separator@ == seq![c],
        call_ensures(join, (&strings, separator), r),
    ensures
        r@ == s@,
        parts@.len() > 0,
        forall|i: int| 0 <= i < parts@.len() ==> !(#[trigger] parts@[i])@.contains(c),
{
    lemma_split_parts(s@, c);
    let views = parts@.map_values(|t: &str| t@);
    assert(string_views(strings@) =~= views) by {
        assert forall|i: int| 0 <= i < views.len() implies string_views(strings@)[i]
            == views[i] by {
            assert(strings@[i]@ == parts@[i]@);
        }
    }
    assert forall|i: int| 0 <= i < parts@.len() implies !(#[trigger] parts@[i])@.contains(c) by {
        assert(views[i] == split_parts(s@, c)[i]);
    }
}

/// One more string in a list appends the separator and the string to what is
/// joined. A single string is what it is, and nothing is joined to nothing.
pub proof fn law_join_appends(
    less: Vec<String>,
    last: String,
    more: Vec<String>,
    separator: &str,
    r: String,
    longer: String,
)
    requires
        more@ == less@.push(last),
        call_ensures(join, (&less, separator), r),
        call_ensures(join, (&more, separator), longer),
    ensures
        less@.len() == 0 ==> r@.len() == 0 && longer@ == last@,
        less@.len() > 0 ==> longer@ == r@ + separator@ + last@,
{
    let views = string_views(more@);
    assert(views.drop_last() =~= string_views(less@));
    assert(views.last() == last@);
}

proof fn lemma_trimmed(s: Seq<char>) -> (k: (int, int))
    ensures
        0 <= k.0 <= k.1 <= s.len(),
        trimmed(s) == s.subrange(k.0, k.1),
        forall|i: int| 0 <= i < k.0 || k.1 <= i < s.len() ==> is_white(#[trigger] s[i]),
        k.0 < k.1 ==> !is_white(s[k.0]) && !is_white(s[k.1 - 1]),
{
    let a = lemma_trimmed_start(s);
    let t = s.skip(a);
    let b = lemma_trimmed_end(t);
    assert(trimmed(s) =~= s.subrange(a, a + b));
    assert forall|i: int| 0 <= i < a || a + b <= i < s.len() implies is_white(
        #[trigger] s[i],
    ) by {
        if i >= a + b {
            assert(t[i - a] == s[i]);
        }
    }
    if b > 0 {
        assert(t[0] == s[a]);
        assert(t[b - 1] == s[a + b - 1]);
    }
    (a, a + b)
}

proof fn lemma_trimmed_start(s: Seq<char>) -> (k: int)
    ensures
        0 <= k <= s.len(),
        trimmed_start(s) == s.skip(k),
        forall|i: int| 0 <= i < k ==> is_white(#[trigger] s[i]),
        k < s.len() ==> !is_white(s[k]),
    decreases s.len(),
{
    if s.len() > 0 && is_white(s[0]) {
        let k = lemma_trimmed_start(s.skip(1));
        assert(s.skip(1).skip(k) =~= s.skip(k + 1));
        assert forall|i: int| 0 <= i < k + 1 implies is_white(#[trigger] s[i]) by {
            if i > 0 {
                assert(s.skip(1)[i - 1] == s[i]);
            }
        }
        k + 1
    } else {
        assert(s.skip(0) =~= s);
        0
    }
}

proof fn lemma_trimmed_end(s: Seq<char>) -> (k: int)
    ensures
        0 <= k <= s.len(),
        trimmed_end(s) == s.take(k),
        forall|i: int| k <= i < s.len() ==> is_white(#[trigger] s[i]),
        k > 0 ==> !is_white(s[k - 1]),
    decreases s.len(),
{
    if s.len() > 0 && is_white(s.last()) {
        let k = lemma_trimmed_end(s.drop_last());
        assert(s.drop_last().take(k) =~= s.take(k));
        assert forall|i: int| k <= i < s.len() implies is_white(#[trigger] s[i]) by {
            if i < s.len() - 1 {
                assert(s.drop_last()[i] == s[i]);
            }
        }
        k
    } else {
        assert(s.take(s.len() as int) =~= s);
        s.len() as int
    }
}

/// Trimming takes off white space at the ends, all of it, and nothing else.
pub proof fn law_trim_takes_white_space_off(s: &str, r: &str) -> (k: (int, int))
    requires
        call_ensures(trim, (s,), r),
    ensures
        0 <= k.0 <= k.1 <= s@.len(),
        r@ == s@.subrange(k.0, k.1),
        forall|i: int|
            0 <= i < k.0 || k.1 <= i < s@.len() ==> is_white(#[trigger] s@[i]),
        r@.len() > 0 ==> !is_white(r@[0]) && !is_white(r@.last()),
{
    lemma_trimmed(s@)
}

/// Of the ASCII characters, tabulators, line breaks and the blank are white
/// space, and no other.
pub proof fn law_ascii_white_space(c: char, r: bool)
    requires
        call_ensures(is_white_space, (c,), r),
        (c as u32) < 128,
    ensures
        r <==> c == ' ' || c == '\t' || c == '\n' || c == '\r' || c as u32 == 11 || c as u32 == 12,
        r <==> is_white(c),
{
}

/// A number that is written can be read again, and has no leading zero.
pub proof fn law_written_number_is_read(n: u64, s: String, text: &str, r: Option<u64>)
    requires
        call_ensures(decimal_string, (n,), s),
        text@ == s@,
        call_ensures(parse_number, (text,), r),
    ensures
        r == Some(n),
        s@.len() > 0,
        s@[0] == '0' ==> n == 0,
        forall|i: int| 0 <= i < s@.len() ==> '0' <= #[trigger] s@[i] && s@[i] <= '9',
{
    law_decimal_round_trip(n as nat, u64::MAX as nat);
    lemma_decimal_value(n as nat);
    lemma_no_leading_zero(n as nat);
    assert forall|i: int| 0 <= i < s@.len() implies '0' <= #[trigger] s@[i] && s@[i] <= '9' by {
        assert(is_digit(s@[i]));
    }
}

proof fn lemma_no_leading_zero(n: nat)
    ensures
        decimal(n).len() > 0,
        decimal(n)[0] == '0' ==> n == 0,
    decreases n,
{
    if n >= 10 {
        lemma_no_leading_zero(n / 10);
        assert(decimal(n)[0] == decimal(n / 10)[0]);
    }
}

/// Reading digits in front: a further digit at the end of a number multiplies it
/// by ten and adds the digit, and anything that is no digit makes it no number.
pub proof fn law_digits_are_read_in_turn(
    less: &str,
    more: &str,
    c: char,
    n: Option<u64>,
    m: Option<u64>,
)
    requires
        more@ == less@.push(c),
        call_ensures(parse_number, (less,), n),
        call_ensures(parse_number, (more,), m),
    ensures
        !('0' <= c && c <= '9') && less@.len() > 0 ==> m is None,
        '0' <= c && c <= '9' && (n matches Some(v) && 10 * v + (c as u32 - 48) <= u64::MAX) ==> (
        m matches Some(v) && v == 10 * n->0 + (c as u32 - 48)),
        (n matches Some(v) && 10 * v + (c as u32 - 48) > u64::MAX) ==> m is None,
        n is None && less@.len() > 0 && less@ != seq!['+'] ==> m is None,
{
    let whole = if more@[0] == '+' {
        more@.skip(1)
    } else {
        more@
    };
    if less@.len() > 0 {
        let part = if less@[0] == '+' {
            less@.skip(1)
        } else {
            less@
        };
        assert(more@[0] == less@[0]);
        assert(whole =~= part.push(c));
        assert(whole.drop_last() =~= part);
        assert(whole[whole.len() - 1] == c);
        if part.len() == 0 {
            assert(less@ =~= seq!['+']);
        }
        if all_digits(whole) {
            assert forall|i: int| 0 <= i < part.len() implies is_digit(#[trigger] part[i]) by {
                assert(part[i] == whole[i]);
            }
            assert(all_digits(part));
            assert(digits_value(part) <= digits_value(whole));
        }
        if n is Some {
            assert forall|i: int| 0 <= i < whole.len() && is_digit(c) implies is_digit(
                #[trigger] whole[i],
            ) by {
                if i < part.len() {
                    assert(whole[i] == part[i]);
                }
            }
        }
    }
}

/// Lower case changes the letters from A to Z into those from a to z and leaves
/// all else.
pub proof fn law_lower_case(s: &str, r: String, i: int)
    requires
        call_ensures(ascii_lowercase, (s,), r),
        0 <= i < s@.len(),
    ensures
        r@.len() == s@.len(),
        'A' <= s@[i] && s@[i] <= 'Z' ==> r@[i] as u32 == s@[i] as u32 + 32,
        !('A' <= s@[i] && s@[i] <= 'Z') ==> r@[i] == s@[i],
{
}

/// Each character beyond the basic plane counts twice, any other once.
pub proof fn law_utf16_counts(less: &str, more: &str, c: char, n: usize, m: usize)
    requires
        more@ == less@.push(c),
        2 * more@.len() <= usize::MAX,
        call_ensures(count_utf16, (less,), n),
        call_ensures(count_utf16, (more,), m),
    ensures
        m == n + if c as u32 > 0xffff {
            2int
        } else {
            1int
        },
        less@.len() == 0 ==> n == 0,
{
    assert(more@.drop_last() =~= less@);
}

/// A text is listed exactly if it is one of the texts.
pub proof fn law_listed_texts_are_found(texts: &[&str], s: &str, r: bool)
    requires
        call_ensures(is_listed, (texts, s), r),
    ensures
        r <==> exists|i: int| 0 <= i < texts@.len() && (#[trigger] texts@[i])@ == s@,
{
    if r {
        let i = choose|i: int| 0 <= i < texts@.len() && #[trigger] texts@[i]@ == s@;
        assert(texts@[i]@ == s@);
    }
    if exists|i: int| 0 <= i < texts@.len() && (#[trigger] texts@[i])@ == s@ {
        let i = choose|i: int| 0 <= i < texts@.len() && (#[trigger] texts@[i])@ == s@;
        assert(texts@[i]@ == s@);
    }
}

/// Texts are ordered by the first character in which they differ. A text comes
/// before those that it is the start of.
pub proof fn law_texts_are_ordered(a: &str, b: &str, r: bool, k: int)
    requires
        call_ensures(is_text_before, (a, b), r),
        0 <= k <= a@.len(),
        k <= b@.len(),
        a@.take(k) == b@.take(k),
    ensures
        k == a@.len() ==> (r <==> k < b@.len()),
        k == b@.len() ==> !r,
        k < a@.len() && k < b@.len() && a@[k] != b@[k] ==> (r <==> a@[k] < b@[k]),
{
    lemma_text_before_at(a@, b@, k);
}

proof fn lemma_text_before_at(a: Seq<char>, b: Seq<char>, k: int)
    requires
        0 <= k <= a.len(),
        k <= b.len(),
        a.take(k) == b.take(k),
    ensures
        text_before(a, b) == text_before(a.skip(k), b.skip(k)),
    decreases k,
{
    if k == 0 {
        assert(a.skip(0) =~= a);
        assert(b.skip(0) =~= b);
    } else {
        assert(a.take(k)[0] == a[0]);
        assert(b.take(k)[0] == b[0]);
        assert(a.skip(1).take(k - 1) =~= a.take(k).skip(1));
        assert(b.skip(1).take(k - 1) =~= b.take(k).skip(1));
        lemma_text_before_at(a.skip(1), b.skip(1), k - 1);
        assert(a.skip(1).skip(k - 1) =~= a.skip(k));
        assert(b.skip(1).skip(k - 1) =~= b.skip(k));
    }
}

/// A negative number is written as its magnitude behind a minus sign.
pub proof fn law_signed_numbers_are_written(
    n: u64,
    magnitude: String,
    i: i64,
    s: String,
    positive: bool,
)
    requires
        call_ensures(decimal_string, (n,), magnitude),
        call_ensures(signed_decimal_string, (i,), s),
        if positive {
            i == n
        } else {
            i == -n && n > 0
        },
    ensures
        positive ==> s@ == magnitude@,
        !positive ==> s@ == seq!['-'] + magnitude@,
{
}

/// A further digit at the end of a number is its remainder by ten.
pub proof fn law_last_digit_is_the_remainder(n: u64, rest: u64, s: String, start: String)
    requires
        n >= 10,
        rest == n / 10,
        call_ensures(decimal_string, (n,), s),
        call_ensures(decimal_string, (rest,), start),
    ensures
        s@.len() == start@.len() + 1,
        s@.take(start@.len() as int) == start@,
        s@.last() as u32 == 48 + n % 10,
{
    assert(s@.take(start@.len() as int) =~= start@);
}

/// The last character of a text is what it ends with.
pub proof fn law_last_character(less: &str, more: &str, last: char, c: char, r: bool, none: bool)
    requires
        more@ == less@.push(last),
        call_ensures(ends_with_char, (more, c), r),
        less@.len() == 0 ==> call_ensures(ends_with_char, (less, c), none),
    ensures
        r <==> last == c,
        less@.len() == 0 ==> !none,
{
}

/// A plus sign in front of a number makes no difference. Nothing, or a plus sign
/// alone, is no number, and a single digit is its value.
pub proof fn law_plus_sign_makes_no_difference(
    plain: &str,
    signed: &str,
    a: Option<u64>,
    b: Option<u64>,
    digit: char,
    one: &str,
    value: Option<u64>,
)
    requires
        plain@.len() == 0 || plain@[0] != '+',
        signed@ == seq!['+'] + plain@,
        call_ensures(parse_number, (plain,), a),
        call_ensures(parse_number, (signed,), b),
        '0' <= digit && digit <= '9',
        one@ == seq![digit],
        call_ensures(parse_number, (one,), value),
    ensures
        a == b,
        plain@.len() == 0 ==> a is None,
        value is Some && value->0 == digit as u32 - 48,
{
    assert(signed@.skip(1) =~= plain@);
    let s = one@;
    assert(s[0] == digit);
    assert(s.drop_last() =~= Seq::<char>::empty());
    assert(is_digit(s[0]));
    assert(digits_value(s.drop_last()) == 0);
    assert(all_digits(s));
    assert(digits_value(s) == digit as u32 - 48);
}

/// White space is what Unicode takes for it.
pub proof fn law_white_space(c: char, r: bool)
    requires
        call_ensures(is_white_space, (c,), r),
    ensures
        r <==> is_white(c),
        r ==> c as u32 <= 0x20 || c as u32 == 0x85 || c as u32 == 0xa0 || c as u32 >= 0x1680,
        0x21 <= c as u32 <= 0x7e ==> !r,
        c as u32 == 0xa0 || c as u32 == 0x202f || c as u32 == 0x3000 || 0x2000 <= c as u32 <= 0x200a
            || c as u32 == 0x2028 || c as u32 == 0x2029 || c as u32 == 0x85 || c as u32 == 0x205f
            || c as u32 == 0x1680 ==> r,
        c as u32 > 0x3000 || 0x2030 <= c as u32 <= 0x205e || 0x200b <= c as u32 <= 0x2027 ==> !r,
{
}

} // verus!
