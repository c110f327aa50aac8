//! What holds of every normalized text.

use crate::preproc::rewrite::Rewrite;
use crate::preproc::whitespace::normalized;
use crate::text::{occurs_at, splice};
use vstd::prelude::*;

verus! {

/// Whether `text` holds no `c`.
pub open spec fn no_char(text: Seq<char>, c: char) -> bool {
    forall|i: int| 0 <= i < text.len() ==> #[trigger] text[i] != c
}

/// A text that holds a match of a rule holds a match that starts first.
proof fn lemma_leftmost(rule: Rewrite, text: Seq<char>, s0: int, e0: int)
    requires
        rule.matches(text, s0, e0),
    ensures
        exists|s: int, e: int|
            rule.matches(text, s, e) && forall|s2: int, e2: int| #[trigger]
                rule.matches(text, s2, e2) ==> s <= s2,
    decreases s0,
{
    rule.lemma_match_bounds(text, s0, e0);
    if exists|s1: int, e1: int| rule.matches(text, s1, e1) && s1 < s0 {
        let (s1, e1) = choose|s1: int, e1: int| rule.matches(text, s1, e1) && s1 < s0;
        rule.lemma_match_bounds(text, s1, e1);
        lemma_leftmost(rule, text, s1, e1);
    } else {
        assert(rule.matches(text, s0, e0) && forall|s2: int, e2: int| #[trigger]
            rule.matches(text, s2, e2) ==> s0 <= s2);
    }
}

/// Of the matches of a rule that start at one position, one ends last.
proof fn lemma_longest(rule: Rewrite, text: Seq<char>, s: int, e0: int)
    requires
        rule.matches(text, s, e0),
    ensures
        exists|e: int|
            rule.matches(text, s, e) && forall|e2: int| #[trigger]
                rule.matches(text, s, e2) ==> e2 <= e,
    decreases text.len() - e0,
{
    rule.lemma_match_bounds(text, s, e0);
    if exists|e1: int| rule.matches(text, s, e1) && e1 > e0 {
        let e1 = choose|e1: int| rule.matches(text, s, e1) && e1 > e0;
        rule.lemma_match_bounds(text, s, e1);
        lemma_longest(rule, text, s, e1);
    } else {
        assert(rule.matches(text, s, e0) && forall|e2: int| #[trigger]
            rule.matches(text, s, e2) ==> e2 <= e0);
    }
}

/// A text that holds a match of a rule holds a first match of it.
pub proof fn lemma_first_match_exists(rule: Rewrite, text: Seq<char>)
    requires
        rule.has_match(text),
    ensures
        rule.has_first_match(text),
{
    let (s0, e0) = choose|s: int, e: int| #[trigger] rule.matches(text, s, e);
    lemma_leftmost(rule, text, s0, e0);
    let (s, e1) = choose|s: int, e: int|
        rule.matches(text, s, e) && forall|s2: int, e2: int| #[trigger]
            rule.matches(text, s2, e2) ==> s <= s2;
    lemma_longest(rule, text, s, e1);
    let e = choose|e: int|
        rule.matches(text, s, e) && forall|e2: int| #[trigger]
            rule.matches(text, s, e2) ==> e2 <= e;
    let p = (s, e);
    assert(rule.is_first_match(text, p.0, p.1));
}

/// What a rule makes of a text holds no match of the rule.
pub proof fn lemma_rewrite_all_done(rule: Rewrite, text: Seq<char>)
    ensures
        !rule.has_match(rule.rewrite_all(text)),
    decreases rule.measure(text),
{
    if rule.has_first_match(text) {
        let (s, e) = rule.first_match(text);
        rule.lemma_step_decreases(text, s, e);
        lemma_rewrite_all_done(rule, rule.apply_at(text, s, e));
    } else {
        if rule.has_match(text) {
            lemma_first_match_exists(rule, text);
        }
    }
}

/// A rule leaves a text without a match of it as it is.
pub proof fn lemma_rewrite_all_same(rule: Rewrite, text: Seq<char>)
    requires
        !rule.has_match(text),
    ensures
        rule.rewrite_all(text) == text,
{
    if rule.has_first_match(text) {
        let p = rule.first_match(text);
        assert(rule.matches(text, p.0, p.1));
    }
}

/// What every replacement of a first match keeps, the rule keeps.
pub proof fn lemma_rewrite_all_keeps(
    rule: Rewrite,
    text: Seq<char>,
    property: spec_fn(Seq<char>) -> bool,
)
    requires
        property(text),
        forall|t: Seq<char>, s: int, e: int|
            property(t) && #[trigger] rule.is_first_match(t, s, e) ==> property(
                rule.apply_at(t, s, e),
            ),
    ensures
        property(rule.rewrite_all(text)),
    decreases rule.measure(text),
{
    if rule.has_first_match(text) {
        let (s, e) = rule.first_match(text);
        assert(rule.is_first_match(text, s, e));
        rule.lemma_step_decreases(text, s, e);
        lemma_rewrite_all_keeps(rule, rule.apply_at(text, s, e), property);
    }
}

/// A text of two characters stands where its characters stand.
proof fn lemma_pair_occurs(text: Seq<char>, a: char, b: char, p: int)
    ensures
        occurs_at(text, seq![a, b], p, p + 2) <==> (0 <= p && p + 2 <= text.len() && text[p] == a
            && text[p + 1] == b),
{
    if 0 <= p && p + 2 <= text.len() {
        if text[p] == a && text[p + 1] == b {
            assert(text.subrange(p, p + 2) =~= seq![a, b]);
        }
        if text.subrange(p, p + 2) == seq![a, b] {
            assert(text.subrange(p, p + 2)[0] == a);
            assert(text.subrange(p, p + 2)[1] == b);
        }
    }
}

/// A character stands where a text of that character alone stands.
proof fn lemma_single_occurs(text: Seq<char>, a: char, p: int)
    ensures
        occurs_at(text, seq![a], p, p + 1) <==> (0 <= p < text.len() && text[p] == a),
{
    if 0 <= p < text.len() {
        if text[p] == a {
            assert(text.subrange(p, p + 1) =~= seq![a]);
        }
        if text.subrange(p, p + 1) == seq![a] {
            assert(text.subrange(p, p + 1)[0] == a);
        }
    }
}

/// Replacing a part of a text by a text without `c` brings no `c` in.
proof fn lemma_splice_no_char(text: Seq<char>, s: int, e: int, with: Seq<char>, c: char)
    requires
        0 <= s <= e <= text.len(),
        no_char(text, c),
        no_char(with, c),
    ensures
        no_char(splice(text, s, e, with), c),
{
    let next = splice(text, s, e, with);
    assert forall|i: int| 0 <= i < next.len() implies #[trigger] next[i] != c by {
        if i < s {
            assert(next[i] == text[i]);
        } else if i < s + with.len() {
            assert(next[i] == with[i - s]);
        } else {
            assert(next[i] == text[i - s - with.len() + e]);
        }
    }
}

/// The rules that come after carriage returns are gone bring none back.
proof fn lemma_keeps_no_char(rule: Rewrite, text: Seq<char>, c: char)
    requires
        no_char(text, c),
        no_char(rule.spec_replacement(), c),
    ensures
        no_char(rule.rewrite_all(text), c),
{
    let property = |t: Seq<char>| no_char(t, c);
    assert forall|t: Seq<char>, s: int, e: int|
        property(t) && #[trigger] rule.is_first_match(t, s, e) implies property(
        rule.apply_at(t, s, e),
    ) by {
        rule.lemma_match_bounds(t, s, e);
        lemma_splice_no_char(t, s, e, rule.spec_replacement(), c);
    }
    lemma_rewrite_all_keeps(rule, text, property);
}

/// Expanding tabs and shrinking runs of newlines joins no backslash to a
/// newline.
proof fn lemma_keeps_no_continuation(rule: Rewrite, text: Seq<char>)
    requires
        rule == Rewrite::Tabs || rule == Rewrite::CompressNewlines,
        !Rewrite::ConcatBackslashes.has_match(text),
    ensures
        !Rewrite::ConcatBackslashes.has_match(rule.rewrite_all(text)),
{
    let property = |t: Seq<char>| !Rewrite::ConcatBackslashes.has_match(t);
    assert forall|t: Seq<char>, s: int, e: int|
        property(t) && #[trigger] rule.is_first_match(t, s, e) implies property(
        rule.apply_at(t, s, e),
    ) by {
        let next = rule.apply_at(t, s, e);
        let with = rule.spec_replacement();
        rule.lemma_match_bounds(t, s, e);
        if Rewrite::ConcatBackslashes.has_match(next) {
            let (p, q) = choose|p: int, q: int| #[trigger]
                Rewrite::ConcatBackslashes.matches(next, p, q);
            lemma_pair_occurs(next, '\\', '\n', p);
            if rule == Rewrite::Tabs {
                lemma_single_occurs(t, '\t', s);
            }
            // The place in the text before that the backslash came from.
            let from = if p + 1 < s {
                p
            } else if p + 1 == s {
                p
            } else {
                p - s - with.len() + e
            };
            if p + 1 < s {
                assert(next[p] == t[p] && next[p + 1] == t[p + 1]);
            } else if p + 1 == s {
                assert(next[p] == t[p]);
                assert(next[p + 1] == with[0]);
                assert(rule == Rewrite::CompressNewlines);
                assert(t[s] == '\n');
            } else if p < s + with.len() {
                assert(next[p] == with[p - s]);
            } else {
                assert(next[p] == t[p - s - with.len() + e]);
                assert(next[p + 1] == t[p + 1 - s - with.len() + e]);
            }
            lemma_pair_occurs(t, '\\', '\n', from);
            assert(Rewrite::ConcatBackslashes.matches(t, from, from + 2));
        }
    }
    lemma_rewrite_all_keeps(rule, text, property);
}

/// A text without a match of the rule for a character holds no such
/// character.
proof fn lemma_no_match_no_char(rule: Rewrite, text: Seq<char>)
    requires
        rule == Rewrite::MacNewlines || rule == Rewrite::Tabs,
        !rule.has_match(text),
    ensures
        no_char(
            text,
            if rule == Rewrite::Tabs {
                '\t'
            } else {
                '\r'
            },
        ),
{
    let c = if rule == Rewrite::Tabs {
        '\t'
    } else {
        '\r'
    };
    assert forall|i: int| 0 <= i < text.len() implies #[trigger] text[i] != c by {
        if text[i] == c {
            lemma_single_occurs(text, c, i);
            assert(rule.matches(text, i, i + 1));
        }
    }
}

/// The fixed points of the preprocessor: a normalized text holds no carriage
/// return and no tab, no backslash stands before a newline in it, and no
/// stretch of whitespace in it starts with a newline and holds three. So
/// none of the rules for these finds a match in it.
pub proof fn lemma_normalized_fixed_points(text: Seq<char>)
    ensures
        no_char(normalized(text), '\r'),
        no_char(normalized(text), '\t'),
        !Rewrite::DosNewlines.has_match(normalized(text)),
        !Rewrite::MacNewlines.has_match(normalized(text)),
        !Rewrite::ConcatBackslashes.has_match(normalized(text)),
        !Rewrite::Tabs.has_match(normalized(text)),
        !Rewrite::CompressNewlines.has_match(normalized(text)),
{
    let t1 = Rewrite::DosNewlines.rewrite_all(text);
    let t2 = Rewrite::MacNewlines.rewrite_all(t1);
    let t3 = Rewrite::Whitespace.rewrite_all(t2);
    let t4 = Rewrite::ConcatBackslashes.rewrite_all(t3);
    let t5 = Rewrite::Tabs.rewrite_all(t4);
    let t6 = Rewrite::CompressNewlines.rewrite_all(t5);
    assert(t6 == normalized(text));

    // No carriage return is left by the second rule, and none comes back.
    lemma_rewrite_all_done(Rewrite::MacNewlines, t1);
    lemma_no_match_no_char(Rewrite::MacNewlines, t2);
    lemma_keeps_no_char(Rewrite::Whitespace, t2, '\r');
    lemma_keeps_no_char(Rewrite::ConcatBackslashes, t3, '\r');
    lemma_keeps_no_char(Rewrite::Tabs, t4, '\r');
    lemma_keeps_no_char(Rewrite::CompressNewlines, t5, '\r');

    // No backslash before a newline is left by the fourth rule.
    lemma_rewrite_all_done(Rewrite::ConcatBackslashes, t3);
    lemma_keeps_no_continuation(Rewrite::Tabs, t4);
    lemma_keeps_no_continuation(Rewrite::CompressNewlines, t5);

    // No tab is left by the fifth rule.
    lemma_rewrite_all_done(Rewrite::Tabs, t4);
    lemma_no_match_no_char(Rewrite::Tabs, t5);
    lemma_keeps_no_char(Rewrite::CompressNewlines, t5, '\t');

    // No run of newlines is left by the sixth rule.
    lemma_rewrite_all_done(Rewrite::CompressNewlines, t5);

    // Without the characters there are no matches.
    if Rewrite::DosNewlines.has_match(t6) {
        let (s, e) = choose|s: int, e: int| #[trigger] Rewrite::DosNewlines.matches(t6, s, e);
        lemma_pair_occurs(t6, '\r', '\n', s);
    }
    if Rewrite::MacNewlines.has_match(t6) {
        let (s, e) = choose|s: int, e: int| #[trigger] Rewrite::MacNewlines.matches(t6, s, e);
        lemma_single_occurs(t6, '\r', s);
    }
    if Rewrite::Tabs.has_match(t6) {
        let (s, e) = choose|s: int, e: int| #[trigger] Rewrite::Tabs.matches(t6, s, e);
        lemma_single_occurs(t6, '\t', s);
    }
}

/// Normalizing twice gives what normalizing once gives, for every text whose
/// normalized form holds no line of whitespace alone. (Joining continued
/// lines can leave such a line behind: ` \` followed by a newline becomes a
/// single space, which normalizing again takes away.)
pub proof fn lemma_normalized_idempotent(text: Seq<char>)
    requires
        !Rewrite::Whitespace.has_match(normalized(text)),
    ensures
        normalized(normalized(text)) == normalized(text),
{
    let out = normalized(text);
    lemma_normalized_fixed_points(text);
    lemma_rewrite_all_same(Rewrite::DosNewlines, out);
    lemma_rewrite_all_same(Rewrite::MacNewlines, out);
    lemma_rewrite_all_same(Rewrite::Whitespace, out);
    lemma_rewrite_all_same(Rewrite::ConcatBackslashes, out);
    lemma_rewrite_all_same(Rewrite::Tabs, out);
    lemma_rewrite_all_same(Rewrite::CompressNewlines, out);
}

} // verus!
