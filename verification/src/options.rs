//! How the command line is read.

use vstd::prelude::*;
use vstd::string::*;

use crate::text::strip_prefix;

verus! {

use crate::text::stripped;

/// A character of a Telegram username.
pub open spec fn is_username_char(c: char) -> bool {
    ('a' <= c && c <= 'z') || ('A' <= c && c <= 'Z') || ('0' <= c && c <= '9') || c == '_'
}

/// A text of such characters.
pub open spec fn is_username(s: Seq<char>) -> bool {
    forall|i: int| 0 <= i < s.len() ==> is_username_char(#[trigger] s[i])
}

/// A name without the sign that a user may put before it.
pub open spec fn bare_name(s: Seq<char>) -> Seq<char> {
    match stripped(s, "@"@) {
        Some(name) => name,
        None => s,
    }
}

pub const INVALID_USERNAME: &'static str = "Not a valid Telegram username";

/// Reads the username of the bot's owner, with or without the sign before it.
pub fn parse_owner_username(input: &str) -> (r: Result<String, String>)
    ensures
        match r {
            Ok(name) => is_username(bare_name(input@)) && name@ == bare_name(input@),
            Err(text) => !is_username(bare_name(input@)) && text@ == INVALID_USERNAME@,
        },
{
    let name = match strip_prefix(input, "@") {
        Some(name) => name,
        None => input,
    };
    for c in it: name.chars()
        invariant
            it.seq() == name@,
            name@ == bare_name(input@),
            forall|i: int| 0 <= i < it.index() ==> is_username_char(#[trigger] name@[i]),
    {
        let ok = ('a' <= c && c <= 'z') || ('A' <= c && c <= 'Z') || ('0' <= c && c <= '9') || c
            == '_';
        if !ok {
            assert(!is_username_char(name@[it.index() as int]));
            return Err(INVALID_USERNAME.to_owned());
        }
    }
    Ok(name.to_owned())
}

/// Reading a name that was read gives the name.
pub proof fn law_username_is_read_once(s: Seq<char>)
    requires
        is_username(bare_name(s)),
    ensures
        bare_name(bare_name(s)) == bare_name(s),
{
    reveal_strlit("@");
    let name = bare_name(s);
    if stripped(name, "@"@) is Some {
        assert(name.take(1)[0] == '@');
        assert(is_username_char(name[0]));
    }
}

/// How much is logged.
#[derive(Debug, Clone, Copy, PartialEq, Eq, Structural)]
pub enum LogLevel {
    Off,
    Error,
    Warn,
    Info,
    Debug,
    Trace,
}

/// How much is logged, by how often more was asked for.
pub fn log_level(quiet: bool, verbose: u8) -> (r: LogLevel)
    ensures
        r == (if quiet {
            LogLevel::Off
        } else if verbose == 0 {
            LogLevel::Error
        } else if verbose == 1 {
            LogLevel::Warn
        } else if verbose == 2 {
            LogLevel::Info
        } else if verbose == 3 {
            LogLevel::Debug
        } else {
            LogLevel::Trace
        }),
{
    if quiet {
        LogLevel::Off
    } else if verbose == 0 {
        LogLevel::Error
    } else if verbose == 1 {
        LogLevel::Warn
    } else if verbose == 2 {
        LogLevel::Info
    } else if verbose == 3 {
        LogLevel::Debug
    } else {
        LogLevel::Trace
    }
}

/// A name is read with or without the sign before it, if it is made of letters,
/// digits and underscores.
pub proof fn law_owner_is_read(
    plain: &str,
    marked: &str,
    a: Result<String, String>,
    b: Result<String, String>,
)
    requires
        plain@.len() == 0 || plain@[0] != '@',
        marked@ == seq!['@'] + plain@,
        call_ensures(parse_owner_username, (plain,), a),
        call_ensures(parse_owner_username, (marked,), b),
    ensures
        a is Ok <==> forall|i: int|
            0 <= i < plain@.len() ==> {
                let c = #[trigger] plain@[i];
                ('a' <= c && c <= 'z') || ('A' <= c && c <= 'Z') || ('0' <= c && c <= '9') || c
                    == '_'
            },
        b is Ok <==> a is Ok,
        a is Ok ==> a->Ok_0@ == plain@ && b->Ok_0@ == plain@,
{
    reveal_strlit("@");
    assert("@"@ =~= seq!['@']);
    assert(marked@.take(1) =~= "@"@);
    assert(marked@.skip(1) =~= plain@);
    if plain@.len() > 0 {
        assert(plain@.take(1)[0] == plain@[0]);
    }
    assert(bare_name(plain@) == plain@);
    assert(bare_name(marked@) == plain@);
    if a is Ok {
        assert forall|i: int| 0 <= i < plain@.len() implies {
            let c = #[trigger] plain@[i];
            ('a' <= c && c <= 'z') || ('A' <= c && c <= 'Z') || ('0' <= c && c <= '9') || c == '_'
        } by {
            assert(is_username_char(plain@[i]));
        }
    }
    if forall|i: int|
        0 <= i < plain@.len() ==> {
            let c = #[trigger] plain@[i];
            ('a' <= c && c <= 'z') || ('A' <= c && c <= 'Z') || ('0' <= c && c <= '9') || c == '_'
        } {
        assert(is_username(plain@));
    }
}

/// More is logged the more often it is asked for, and nothing if quiet is asked
/// for.
pub proof fn law_more_is_logged(
    verbose: u8,
    r: LogLevel,
    more: u8,
    m: LogLevel,
    quiet: LogLevel,
)
    requires
        call_ensures(log_level, (false, verbose), r),
        call_ensures(log_level, (false, more), m),
        call_ensures(log_level, (true, verbose), quiet),
    ensures
        quiet is Off,
        verbose == 0 <==> r is Error,
        more == verbose + 1 ==> match r {
            LogLevel::Error => m is Warn,
            LogLevel::Warn => m is Info,
            LogLevel::Info => m is Debug,
            LogLevel::Debug => m is Trace,
            LogLevel::Trace => m is Trace,
            LogLevel::Off => false,
        },
{
}

} // verus!
