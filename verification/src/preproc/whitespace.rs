//! The substitutions that prepare wikitext for tokenizing.

use crate::preproc::laws::{lemma_normalized_fixed_points, no_char};
use crate::preproc::matcher::{compile, compiled_from, find};
use crate::std_specs::replace_range;
use crate::text::covers;
use crate::preproc::rewrite::Rewrite;
use regex::Regex;
use vstd::prelude::*;

verus! {

impl Rewrite {
    /// The regular expression that finds this rule's matches.
    pub fn pattern(self) -> (r: &'static str)
        ensures
            r@ == self.spec_pattern(),
    {
        match self {
            Rewrite::DosNewlines => "\\r\\n",
            Rewrite::MacNewlines => "\\r",
            Rewrite::Whitespace => "^\\s+$",
            Rewrite::ConcatBackslashes => "\\\\\\n",
            Rewrite::Tabs => "\\t",
            Rewrite::CompressNewlines => "(?:\\n\\s*){3,}",
        }
    }

    /// Whether the regular expression is compiled in multi-line mode.
    pub fn multi_line(self) -> (r: bool)
        ensures
            r == self.spec_multi_line(),
    {
        match self {
            Rewrite::Whitespace | Rewrite::CompressNewlines => true,
            _ => false,
        }
    }

    /// What a match is replaced by.
    pub fn replacement(self) -> (r: &'static str)
        ensures
            r@ == self.spec_replacement(),
    {
        proof {
            reveal_strlit("\n");
            reveal_strlit("");
            reveal_strlit("    ");
            reveal_strlit("\n\n");
        }
        match self {
            Rewrite::DosNewlines => {
                assert("\n"@ =~= seq!['\n']);
                "\n"
            },
            Rewrite::MacNewlines => {
                assert("\n"@ =~= seq!['\n']);
                "\n"
            },
            Rewrite::Whitespace => {
                assert(""@ =~= Seq::<char>::empty());
                ""
            },
            Rewrite::ConcatBackslashes => {
                assert(""@ =~= Seq::<char>::empty());
                ""
            },
            Rewrite::Tabs => {
                assert("    "@ =~= seq![' ', ' ', ' ', ' ']);
                "    "
            },
            Rewrite::CompressNewlines => {
                assert("\n\n"@ =~= seq!['\n', '\n']);
                "\n\n"
            },
        }
    }
}

/// The text that the preprocessor makes of `text`: the six rules applied in
/// order, each until it matches nowhere.
pub open spec fn normalized(text: Seq<char>) -> Seq<char> {
    let text = Rewrite::DosNewlines.rewrite_all(text);
    let text = Rewrite::MacNewlines.rewrite_all(text);
    let text = Rewrite::Whitespace.rewrite_all(text);
    let text = Rewrite::ConcatBackslashes.rewrite_all(text);
    let text = Rewrite::Tabs.rewrite_all(text);
    Rewrite::CompressNewlines.rewrite_all(text)
}

/// Normalizes `text` in place: newlines are unified, whitespace-only lines
/// emptied, continued lines joined, tabs expanded and runs of newlines shrunk.
/// What is left holds no carriage return, no tab, no backslash before a
/// newline and no run of three newlines.
pub fn substitute(text: &mut String)
    ensures
        final(text)@ == normalized(old(text)@),
        no_char(final(text)@, '\r'),
        no_char(final(text)@, '\t'),
        !Rewrite::ConcatBackslashes.has_match(final(text)@),
        !Rewrite::CompressNewlines.has_match(final(text)@),
{
    proof {
        lemma_normalized_fixed_points(text@);
    }
    apply_rule(text, Rewrite::DosNewlines);
    apply_rule(text, Rewrite::MacNewlines);
    apply_rule(text, Rewrite::Whitespace);
    apply_rule(text, Rewrite::ConcatBackslashes);
    apply_rule(text, Rewrite::Tabs);
    apply_rule(text, Rewrite::CompressNewlines);
}

/// Applies one rule to `text` until it matches nowhere.
pub fn apply_rule(text: &mut String, rule: Rewrite)
    ensures
        final(text)@ == rule.rewrite_all(old(text)@),
{
    match compile(rule.pattern(), rule.multi_line()) {
        Ok(regex) => regex_replace(text, &regex, rule),
        Err(_) => {
            assert(false);
        },
    }
}

/// Replaces the first match of `regex` in `text` until there is none.
fn regex_replace(text: &mut String, regex: &Regex, rule: Rewrite)
    requires
        compiled_from(*regex, rule),
    ensures
        final(text)@ == rule.rewrite_all(old(text)@),
{
    loop
        invariant
            compiled_from(*regex, rule),
            rule.rewrite_all(text@) == rule.rewrite_all(old(text)@),
        ensures
            text@ == rule.rewrite_all(old(text)@),
        decreases rule.measure(text@),
    {
        match find(regex, text.as_str()) {
            Some((start, end)) => {
                let ghost before = text@;
                let ghost (s, e) = choose|s: int, e: int|
                    rule.is_first_match(before, s, e) && #[trigger] covers(before, start, end, s, e);
                proof {
                    rule.lemma_first_match_is(before, s, e);
                    rule.lemma_step_decreases(before, s, e);
                }
                replace_range(text, start, end, rule.replacement());
                assert(text@ == rule.apply_at(before, s, e));
            },
            None => {
                proof {
                    if rule.has_first_match(text@) {
                        let p = rule.first_match(text@);
                        assert(rule.matches(text@, p.0, p.1));
                    }
                }
                break ;
            },
        }
    }
}

} // verus!
