//! The rewrite rules of the preprocessor and what they match.

use crate::text::{all_space, occurs_at, splice};
use vstd::prelude::*;

verus! {

/// Whether position `i` of `text` is the start of the text or follows a newline.
pub open spec fn line_start(text: Seq<char>, i: int) -> bool {
    i == 0 || (0 < i <= text.len() && text[i - 1] == '\n')
}

/// Whether position `i` of `text` is the end of the text or precedes a newline.
pub open spec fn line_end(text: Seq<char>, i: int) -> bool {
    i == text.len() || (0 <= i < text.len() && text[i] == '\n')
}

/// A rewrite rule: what it looks for and what it puts in its place.
#[derive(Debug, Clone, Copy, PartialEq, Eq, Structural)]
pub enum Rewrite {
    /// A carriage return and a newline become a newline.
    DosNewlines,
    /// A carriage return becomes a newline.
    MacNewlines,
    /// A non-empty stretch of whitespace that runs from the start of a line to
    /// the end of a line is removed.
    Whitespace,
    /// A backslash followed by a newline is removed.
    ConcatBackslashes,
    /// A tab becomes four spaces.
    Tabs,
    /// A stretch of whitespace that starts with a newline and holds at least
    /// three newlines becomes two newlines.
    CompressNewlines,
}

impl Rewrite {
    /// The regular expression that finds this rule's matches.
    pub open spec fn spec_pattern(self) -> Seq<char> {
        match self {
            Rewrite::DosNewlines => "\\r\\n"@,
            Rewrite::MacNewlines => "\\r"@,
            Rewrite::Whitespace => "^\\s+$"@,
            Rewrite::ConcatBackslashes => "\\\\\\n"@,
            Rewrite::Tabs => "\\t"@,
            Rewrite::CompressNewlines => "(?:\\n\\s*){3,}"@,
        }
    }

    /// Whether the regular expression is compiled in multi-line mode, in which
    /// `^` and `$` match at line boundaries.
    pub open spec fn spec_multi_line(self) -> bool {
        self == Rewrite::Whitespace || self == Rewrite::CompressNewlines
    }

    /// What a match is replaced by.
    pub open spec fn spec_replacement(self) -> Seq<char> {
        match self {
            Rewrite::DosNewlines => seq!['\n'],
            Rewrite::MacNewlines => seq!['\n'],
            Rewrite::Whitespace => Seq::empty(),
            Rewrite::ConcatBackslashes => Seq::empty(),
            Rewrite::Tabs => seq![' ', ' ', ' ', ' '],
            Rewrite::CompressNewlines => seq!['\n', '\n'],
        }
    }

    /// Whether `text[s..e]` is a match of this rule.
    pub open spec fn matches(self, text: Seq<char>, s: int, e: int) -> bool {
        match self {
            Rewrite::DosNewlines => occurs_at(text, seq!['\r', '\n'], s, e),
            Rewrite::MacNewlines => occurs_at(text, seq!['\r'], s, e),
            Rewrite::Whitespace => {
                &&& 0 <= s < e <= text.len()
                &&& line_start(text, s)
                &&& line_end(text, e)
                &&& all_space(text, s, e)
            },
            Rewrite::ConcatBackslashes => occurs_at(text, seq!['\\', '\n'], s, e),
            Rewrite::Tabs => occurs_at(text, seq!['\t'], s, e),
            Rewrite::CompressNewlines => {
                &&& 0 <= s < e <= text.len()
                &&& text[s] == '\n'
                &&& all_space(text, s, e)
                &&& exists|i: int, j: int|
                    s < i < j < e && #[trigger] text[i] == '\n' && #[trigger] text[j] == '\n'
            },
        }
    }

    /// Whether `text[s..e]` is the match that a search reports: the one that
    /// starts first and, of those that start there, the one that ends last.
    pub open spec fn is_first_match(self, text: Seq<char>, s: int, e: int) -> bool {
        &&& self.matches(text, s, e)
        &&& forall|s2: int, e2: int| #[trigger] self.matches(text, s2, e2) ==> s <= s2
        &&& forall|e2: int| #[trigger] self.matches(text, s, e2) ==> e2 <= e
    }

    /// Whether `text` holds a match of this rule.
    pub open spec fn has_match(self, text: Seq<char>) -> bool {
        exists|s: int, e: int| #[trigger] self.matches(text, s, e)
    }

    /// Whether `text` holds a match that starts first and ends last.
    pub open spec fn has_first_match(self, text: Seq<char>) -> bool {
        exists|p: (int, int)| #[trigger] self.is_first_match(text, p.0, p.1)
    }

    /// The match that a search reports, if `text` holds one.
    pub open spec fn first_match(self, text: Seq<char>) -> (int, int) {
        choose|p: (int, int)| #[trigger] self.is_first_match(text, p.0, p.1)
    }

    /// `text` with `text[s..e]` replaced by this rule's replacement.
    pub open spec fn apply_at(self, text: Seq<char>, s: int, e: int) -> Seq<char> {
        splice(text, s, e, self.spec_replacement())
    }

    /// A number that every replacement of a first match makes smaller.
    pub open spec fn measure(self, text: Seq<char>) -> nat {
        match self {
            Rewrite::MacNewlines | Rewrite::Tabs => if self.has_first_match(text) {
                (text.len() - self.first_match(text).0) as nat
            } else {
                0
            },
            _ => text.len(),
        }
    }

    /// `text` after this rule has replaced first matches until none is left.
    pub open spec fn rewrite_all(self, text: Seq<char>) -> Seq<char>
        decreases self.measure(text),
    {
        if self.has_first_match(text) {
            let (s, e) = self.first_match(text);
            proof {
                self.lemma_step_decreases(text, s, e);
            }
            self.rewrite_all(self.apply_at(text, s, e))
        } else {
            text
        }
    }

    /// A match lies inside the text.
    pub proof fn lemma_match_bounds(self, text: Seq<char>, s: int, e: int)
        requires
            self.matches(text, s, e),
        ensures
            0 <= s <= e <= text.len(),
            self != Rewrite::DosNewlines ==> s < e,
    {
    }

    /// A text has at most one first match.
    pub proof fn lemma_first_match_unique(self, text: Seq<char>, s: int, e: int, s2: int, e2: int)
        requires
            self.is_first_match(text, s, e),
            self.is_first_match(text, s2, e2),
        ensures
            s == s2,
            e == e2,
    {
    }

    /// The first match of a text is the one that `first_match` names.
    pub proof fn lemma_first_match_is(self, text: Seq<char>, s: int, e: int)
        requires
            self.is_first_match(text, s, e),
        ensures
            self.has_first_match(text),
            self.first_match(text) == (s, e),
    {
        let p = (s, e);
        assert(self.is_first_match(text, p.0, p.1));
        let q = self.first_match(text);
        self.lemma_first_match_unique(text, s, e, q.0, q.1);
    }

    /// Replacing the first match makes the measure smaller.
    pub proof fn lemma_step_decreases(self, text: Seq<char>, s: int, e: int)
        requires
            self.is_first_match(text, s, e),
        ensures
            self.measure(self.apply_at(text, s, e)) < self.measure(text),
    {
        let next = self.apply_at(text, s, e);
        let r = self.spec_replacement();
        self.lemma_first_match_is(text, s, e);
        match self {
            Rewrite::MacNewlines | Rewrite::Tabs => {
                let c = if self == Rewrite::Tabs { '\t' } else { '\r' };
                assert(text.subrange(s, e)[0] == c);
                assert(text[s] == c);
                assert(next.len() == text.len() - 1 + r.len());
                if self.has_first_match(next) {
                    let (s2, e2) = self.first_match(next);
                    assert(self.is_first_match(next, s2, e2));
                    assert(next.subrange(s2, e2)[0] == c);
                    assert(next[s2] == c);
                    if s2 < s {
                        assert(text[s2] == c);
                        assert(text.subrange(s2, s2 + 1) =~= seq![c]);
                        assert(self.matches(text, s2, s2 + 1));
                    }
                    if s <= s2 < s + r.len() {
                        assert(next[s2] == r[s2 - s]);
                    }
                }
            },
            Rewrite::CompressNewlines => {
                let (i, j) = choose|i: int, j: int|
                    s < i < j < e && #[trigger] text[i] == '\n' && #[trigger] text[j] == '\n';
            },
            _ => {},
        }
    }
}

} // verus!
