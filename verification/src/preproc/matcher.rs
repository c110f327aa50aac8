//! Searching text with compiled regular expressions.

use crate::preproc::rewrite::Rewrite;
use crate::text::covers;
use regex::{Regex, RegexBuilder};
use vstd::prelude::*;

verus! {

/// A compiled regular expression of the `regex` crate.
#[verifier::external_type_specification]
#[verifier::external_body]
pub struct ExRegex(regex::Regex);

/// The error that compiling a regular expression can give.
#[verifier::external_type_specification]
#[verifier::external_body]
pub struct ExRegexError(regex::Error);

/// What compiling `pattern` gives, with multi-line mode switched on or off.
pub uninterp spec fn compiled(pattern: Seq<char>, multi_line: bool) -> Result<Regex, regex::Error>;

/// Whether `regex` is the compiled form of `rule`.
pub open spec fn compiled_from(regex: Regex, rule: Rewrite) -> bool {
    compiled(rule.spec_pattern(), rule.spec_multi_line()) == Ok::<Regex, regex::Error>(regex)
}

/// Whether `found` is what a search of `text` for `rule` reports: nothing when
/// the text holds no match, else the byte range of the first match.
pub open spec fn reports(rule: Rewrite, text: Seq<char>, found: Option<(usize, usize)>) -> bool {
    match found {
        None => !rule.has_match(text),
        Some((start, end)) => exists|s: int, e: int|
            rule.is_first_match(text, s, e) && #[trigger] covers(text, start, end, s, e),
    }
}

/// Compiles `pattern`.
///
/// Calls `RegexBuilder::new`, `RegexBuilder::multi_line` and
/// `RegexBuilder::build`. The result is a function of the pattern and the flag
/// alone. The contract claims further that each pattern of a [`Rewrite`] rule
/// is valid and small enough to compile.
#[verifier::external_body]
pub(crate) fn compile(pattern: &str, multi_line: bool) -> (r: Result<Regex, regex::Error>)
    ensures
        r == compiled(pattern@, multi_line),
        (exists|rule: Rewrite|
            pattern@ == #[trigger] rule.spec_pattern() && multi_line == rule.spec_multi_line())
            ==> r is Ok,
{
    RegexBuilder::new(pattern).multi_line(multi_line).build()
}

/// Searches `text` for the first match of `regex`.
///
/// Calls `Regex::find`, `Match::start` and `Match::end`, and returns the byte
/// offsets of the match. `Regex::find` reports the leftmost match, and of the
/// matches that start there the one that the pattern prefers; the contract
/// claims that for the pattern of each [`Rewrite`] rule this is the match
/// described by [`Rewrite::is_first_match`]:
/// * `\r\n`, `\r`, `\\\n` and `\t` match those characters and nothing else;
/// * `^\s+$` in multi-line mode matches one or more `White_Space` characters
///   between a line start and a line end, and being greedy takes as many as it
///   can;
/// * `(?:\n\s*){3,}` matches whitespace that starts with a newline and holds
///   at least three newlines, and being greedy takes all the whitespace that
///   follows.
#[verifier::external_body]
pub(crate) fn find(regex: &Regex, text: &str) -> (r: Option<(usize, usize)>)
    ensures
        forall|rule: Rewrite| #[trigger] compiled_from(*regex, rule) ==> reports(rule, text@, r),
{
    match regex.find(text) {
        Some(found) => Some((found.start(), found.end())),
        None => None,
    }
}

} // verus!
