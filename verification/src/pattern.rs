//! What the groups of a regular expression match in a text.

use regex::RegexBuilder;
use vstd::prelude::*;

verus! {

use crate::text::opt_text;

/// What the groups of a pattern match in a text, if the pattern matches: the
/// result of [`regex::Regex::captures`], for the pattern that [`RegexBuilder`]
/// may make case insensitive and whose dot it may let match newlines. There is
/// no result if the pattern is refused: the size of a compiled pattern is
/// limited, and depends on the number of bits in a machine word.
pub uninterp spec fn pattern_captures(
    pattern: Seq<char>,
    case_insensitive: bool,
    dot_matches_new_line: bool,
    text: Seq<char>,
    word_bits: int,
) -> Option<Seq<Option<Seq<char>>>>;

/// The texts of groups.
pub open spec fn group_views(groups: Seq<Option<&str>>) -> Seq<Option<Seq<char>>> {
    groups.map_values(|g: Option<&str>| opt_text(g))
}

/// [`regex::Regex::captures`] for a pattern that [`RegexBuilder`] builds: what
/// the groups match depends on the pattern, the two settings, the text and the
/// size of a machine word alone.
#[verifier::external_body]
pub(crate) fn captures<'a>(
    pattern: &str,
    case_insensitive: bool,
    dot_matches_new_line: bool,
    text: &'a str,
) -> (r: Option<Vec<Option<&'a str>>>)
    ensures
        ({
            let captured = pattern_captures(
                pattern@,
                case_insensitive,
                dot_matches_new_line,
                text@,
                usize::BITS as int,
            );
            match r {
                Some(groups) => captured == Some(group_views(groups@)),
                None => captured is None,
            }
        }),
{
    let regex = RegexBuilder::new(pattern)
        .case_insensitive(case_insensitive)
        .dot_matches_new_line(dot_matches_new_line)
        .build()
        .ok()?;
    let captures = regex.captures(text)?;
    Some(captures.iter().map(|group| group.map(|m| m.as_str())).collect())
}

} // verus!
