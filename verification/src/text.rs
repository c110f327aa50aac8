//! Character-level helpers shared by the tokenizer, the parser and the renderers.

use crate::std_specs::{find_str, push_char, replace_range};
use vstd::prelude::*;
use vstd::utf8::encode_utf8;

verus! {

/// Whether `c` is an ASCII upper-case letter.
pub open spec fn is_ascii_upper(c: char) -> bool {
    'A' <= c <= 'Z'
}

/// The ASCII lower-case form of `c`; characters other than `A`-`Z` are unchanged.
pub open spec fn ascii_lower(c: char) -> char {
    if is_ascii_upper(c) {
        ((c as u8) + 32) as char
    } else {
        c
    }
}

/// `text` with every ASCII upper-case letter replaced by its lower-case form.
pub open spec fn ascii_lowercase(text: Seq<char>) -> Seq<char> {
    Seq::new(text.len(), |i: int| ascii_lower(text[i]))
}

/// Lower-cases one character the way HTML folds attribute and block names.
pub fn lower_char(c: char) -> (r: char)
    ensures
        r == ascii_lower(c),
{
    if 'A' <= c && c <= 'Z' {
        let b: u8 = c as u8;
        (b + 32) as char
    } else {
        c
    }
}

/// Whether two strings hold the same characters.
pub fn str_eq(a: &str, b: &str) -> (r: bool)
    ensures
        r == (a@ == b@),
{
    let x = chars_of(a);
    let y = chars_of(b);
    if x.len() != y.len() {
        return false;
    }
    let mut i: usize = 0;
    while i < x.len()
        invariant
            i <= x.len(),
            x.len() == y.len(),
            x@ == a@,
            y@ == b@,
            forall|j: int| 0 <= j < i ==> x@[j] == y@[j],
        decreases x.len() - i,
    {
        if x[i] != y[i] {
            return false;
        }
        i += 1;
    }
    assert(x@ =~= y@);
    true
}

/// The digit that stands for `value`, which is less than ten.
pub open spec fn digit(value: nat) -> char {
    (('0' as u8) + (value % 10) as u8) as char
}

/// The decimal form of `value`.
pub open spec fn decimal_text(value: nat) -> Seq<char>
    decreases value,
{
    if value < 10 {
        seq![digit(value)]
    } else {
        decimal_text(value / 10).push(digit(value % 10))
    }
}

/// The decimal form of `value`.
pub fn decimal(value: usize) -> (r: String)
    ensures
        r@ == decimal_text(value as nat),
    decreases value,
{
    let last = (48u8 + (value % 10) as u8) as char;
    if value < 10 {
        let mut out = String::new();
        push_char(&mut out, last);
        assert(out@ =~= seq![digit(value as nat)]);
        out
    } else {
        let mut out = decimal(value / 10);
        push_char(&mut out, last);
        out
    }
}

/// The elements of `list` in the opposite order.
pub fn reversed<T>(list: Vec<T>) -> (r: Vec<T>)
    ensures
        r@.len() == list@.len(),
        forall|i: int| 0 <= i < r@.len() ==> r@[i] == list@[list@.len() - 1 - i],
{
    let ghost all = list@;
    let mut rest = list;
    let mut out: Vec<T> = Vec::new();
    while rest.len() > 0
        invariant
            out@.len() + rest@.len() == all.len(),
            forall|j: int| 0 <= j < rest@.len() ==> rest@[j] == all[j],
            forall|j: int| 0 <= j < out@.len() ==> out@[j] == all[all.len() - 1 - j],
        decreases rest@.len(),
    {
        let item = rest.pop().unwrap();
        out.push(item);
    }
    out
}

/// The characters of `s`, in order.
pub fn chars_of(s: &str) -> (r: Vec<char>)
    ensures
        r@ == s@,
{
    let mut out: Vec<char> = Vec::new();
    for c in it: s.chars()
        invariant
            out@ == s@.subrange(0, it.index() as int),
            it.seq() == s@,
    {
        out.push(c);
    }
    assert(s@.subrange(0, s@.len() as int) == s@);
    out
}

/// The string made of `chars[from..to]`.
pub fn string_of(chars: &Vec<char>, from: usize, to: usize) -> (r: String)
    requires
        from <= to <= chars.len(),
    ensures
        r@ == chars@.subrange(from as int, to as int),
{
    let mut out = String::new();
    let mut i: usize = from;
    while i < to
        invariant
            from <= i <= to <= chars.len(),
            out@ == chars@.subrange(from as int, i as int),
        decreases to - i,
    {
        push_char(&mut out, chars[i]);
        assert(chars@.subrange(from as int, i as int).push(chars@[i as int])
            == chars@.subrange(from as int, i as int + 1));
        i += 1;
    }
    out
}

/// The ASCII lower-case form of `s`.
pub fn lowercase(s: &str) -> (r: String)
    ensures
        r@ == ascii_lowercase(s@),
{
    let chars = chars_of(s);
    let mut out = String::new();
    let mut i: usize = 0;
    while i < chars.len()
        invariant
            i <= chars.len(),
            chars@ == s@,
            out@ == ascii_lowercase(s@).subrange(0, i as int),
        decreases chars.len() - i,
    {
        push_char(&mut out, lower_char(chars[i]));
        assert(ascii_lowercase(s@).subrange(0, i as int).push(ascii_lower(s@[i as int]))
            == ascii_lowercase(s@).subrange(0, i as int + 1));
        i += 1;
    }
    assert(ascii_lowercase(s@).subrange(0, s@.len() as int) == ascii_lowercase(s@));
    out
}

/// Whether `c` has the Unicode property `White_Space`.
pub open spec fn is_space(c: char) -> bool {
    ||| '\u{9}' <= c <= '\u{d}'
    ||| c == ' '
    ||| c == '\u{85}'
    ||| c == '\u{a0}'
    ||| c == '\u{1680}'
    ||| '\u{2000}' <= c <= '\u{200a}'
    ||| c == '\u{2028}'
    ||| c == '\u{2029}'
    ||| c == '\u{202f}'
    ||| c == '\u{205f}'
    ||| c == '\u{3000}'
}

/// Whether `c` has the Unicode property `White_Space`.
pub fn char_is_space(c: char) -> (r: bool)
    ensures
        r == is_space(c),
{
    ('\u{9}' <= c && c <= '\u{d}') || c == ' ' || c == '\u{85}' || c == '\u{a0}' || c
        == '\u{1680}' || ('\u{2000}' <= c && c <= '\u{200a}') || c == '\u{2028}' || c
        == '\u{2029}' || c == '\u{202f}' || c == '\u{205f}' || c == '\u{3000}'
}

/// Whether every character of `text[s..e]` is whitespace.
pub open spec fn all_space(text: Seq<char>, s: int, e: int) -> bool {
    forall|i: int| s <= i < e ==> is_space(#[trigger] text[i])
}

/// `text` without the whitespace at its ends.
pub open spec fn trimmed(text: Seq<char>) -> Seq<char> {
    trimmed_by(text, |c: char| is_space(c))
}

/// `s` without the whitespace at its ends.
pub fn trim(s: &str) -> (r: String)
    ensures
        r@ == trimmed(s@),
{
    let chars = chars_of(s);
    let mut start: usize = 0;
    while start < chars.len() && char_is_space(chars[start])
        invariant
            start <= chars.len(),
            all_space(chars@, 0, start as int),
        decreases chars.len() - start,
    {
        start += 1;
    }
    let mut end: usize = chars.len();
    while end > start && char_is_space(chars[end - 1])
        invariant
            start <= end <= chars.len(),
            all_space(chars@, end as int, chars@.len() as int),
        decreases end,
    {
        end -= 1;
    }
    proof {
        let class = |c: char| is_space(c);
        assert(is_trimmed_by(chars@, class, start as int, end as int));
        lemma_trimmed_by_unique(chars@, class, start as int, end as int);
    }
    string_of(&chars, start, end)
}

/// Whether `items[s..e]` is `items` without the items at its ends that are
/// of the class `class`.
pub open spec fn is_trimmed_by<T>(items: Seq<T>, class: spec_fn(T) -> bool, s: int, e: int) -> bool {
    &&& 0 <= s <= e <= items.len()
    &&& forall|i: int| 0 <= i < s ==> class(#[trigger] items[i])
    &&& forall|i: int| e <= i < items.len() ==> class(#[trigger] items[i])
    &&& s < e ==> !class(items[s]) && !class(items[e - 1])
}

/// `items` without the items at its ends that are of the class `class`.
pub open spec fn trimmed_by<T>(items: Seq<T>, class: spec_fn(T) -> bool) -> Seq<T> {
    let (s, e) = choose|p: (int, int)| #[trigger] is_trimmed_by(items, class, p.0, p.1);
    items.subrange(s, e)
}

/// A sequence is trimmed in one way only.
pub proof fn lemma_trimmed_by_unique<T>(items: Seq<T>, class: spec_fn(T) -> bool, s: int, e: int)
    requires
        is_trimmed_by(items, class, s, e),
    ensures
        trimmed_by(items, class) == items.subrange(s, e),
{
    let witness = (s, e);
    assert(is_trimmed_by(items, class, witness.0, witness.1));
    let (s2, e2) = choose|p: (int, int)| #[trigger] is_trimmed_by(items, class, p.0, p.1);
    if s < e {
        if s2 < s {
            assert(class(items[s2]));
        }
        assert(s2 < e2) by {
            if s2 >= e2 {
                if s < s2 {
                    assert(class(items[s]));
                } else {
                    assert(class(items[e - 1]));
                }
            }
        }
        if s2 > s {
            assert(class(items[s]));
        }
        if e2 < e {
            assert(class(items[e - 1]));
        }
        if e2 > e {
            assert(class(items[e2 - 1]));
        }
    } else {
        if s2 < e2 {
            assert(class(items[s2]));
        }
        assert(items.subrange(s, e) =~= items.subrange(s2, e2));
    }
}

/// `text` without the newlines at its ends.
pub open spec fn without_outer_newlines(text: Seq<char>) -> Seq<char> {
    trimmed_by(text, |c: char| c == '\n')
}

/// `s` without the newlines at its ends.
pub fn strip_newlines(s: &str) -> (r: String)
    ensures
        r@ == without_outer_newlines(s@),
{
    let chars = chars_of(s);
    let ghost class = |c: char| c == '\n';
    let mut start: usize = 0;
    while start < chars.len() && chars[start] == '\n'
        invariant
            start <= chars.len(),
            forall|i: int| 0 <= i < start ==> chars@[i] == '\n',
        decreases chars.len() - start,
    {
        start += 1;
    }
    let mut end: usize = chars.len();
    while end > start && chars[end - 1] == '\n'
        invariant
            start <= end <= chars.len(),
            forall|i: int| end <= i < chars@.len() ==> chars@[i] == '\n',
        decreases end,
    {
        end -= 1;
    }
    proof {
        assert(is_trimmed_by(chars@, class, start as int, end as int));
        lemma_trimmed_by_unique(chars@, class, start as int, end as int);
    }
    string_of(&chars, start, end)
}

/// The number of bytes that the first `i` characters of `text` take in UTF-8.
pub open spec fn byte_offset(text: Seq<char>, i: int) -> int {
    encode_utf8(text.subrange(0, i)).len() as int
}

/// Whether the byte range `start..end` of `text` in UTF-8 covers exactly the
/// characters `text[s..e]`.
pub open spec fn covers(text: Seq<char>, start: usize, end: usize, s: int, e: int) -> bool {
    &&& 0 <= s <= e <= text.len()
    &&& start == byte_offset(text, s)
    &&& end == byte_offset(text, e)
}

/// The UTF-8 form of two texts in a row is the two UTF-8 forms in a row.
pub proof fn lemma_encode_concat(a: Seq<char>, b: Seq<char>)
    ensures
        encode_utf8(a + b) == encode_utf8(a) + encode_utf8(b),
    decreases a.len(),
{
    if a.len() == 0 {
        assert(a + b =~= b);
        assert(encode_utf8(a) + encode_utf8(b) =~= encode_utf8(b));
    } else {
        lemma_encode_concat(a.drop_first(), b);
        assert((a + b).drop_first() =~= a.drop_first() + b);
        assert(encode_utf8(a + b) =~= encode_utf8(a) + encode_utf8(b));
    }
}

/// The bytes up to the end of a stretch of a text are the bytes up to its
/// start and the bytes of the stretch, and are no more than the bytes of
/// the text.
pub proof fn lemma_byte_offset_step(text: Seq<char>, from: int, to: int)
    requires
        0 <= from <= to <= text.len(),
    ensures
        byte_offset(text, to) == byte_offset(text, from) + encode_utf8(
            text.subrange(from, to),
        ).len(),
        byte_offset(text, to) <= encode_utf8(text).len(),
{
    assert(text.subrange(0, to) =~= text.subrange(0, from) + text.subrange(from, to));
    lemma_encode_concat(text.subrange(0, from), text.subrange(from, to));
    assert(text =~= text.subrange(0, to) + text.subrange(to, text.len() as int));
    lemma_encode_concat(text.subrange(0, to), text.subrange(to, text.len() as int));
}

/// Whether `text[s..e]` is exactly `needle`.
pub open spec fn occurs_at(text: Seq<char>, needle: Seq<char>, s: int, e: int) -> bool {
    &&& 0 <= s
    &&& e == s + needle.len()
    &&& e <= text.len()
    &&& text.subrange(s, e) == needle
}

/// Whether `needle` occurs in `text` at `s` and nowhere before.
pub open spec fn is_first_occurrence(text: Seq<char>, needle: Seq<char>, s: int) -> bool {
    &&& occurs_at(text, needle, s, s + needle.len())
    &&& forall|s2: int| #[trigger] occurs_at(text, needle, s2, s2 + needle.len()) ==> s <= s2
}

/// Whether `needle` occurs in `text`.
pub open spec fn has_occurrence(text: Seq<char>, needle: Seq<char>) -> bool {
    exists|s: int| #[trigger] is_first_occurrence(text, needle, s)
}

/// Where `needle` first occurs in `text`, if it occurs.
pub open spec fn first_occurrence(text: Seq<char>, needle: Seq<char>) -> int {
    choose|s: int| #[trigger] is_first_occurrence(text, needle, s)
}

/// `text` with `text[s..e]` replaced by `with`.
pub open spec fn splice(text: Seq<char>, s: int, e: int, with: Seq<char>) -> Seq<char> {
    text.subrange(0, s) + with + text.subrange(e, text.len() as int)
}

/// How often `c` occurs in `text`.
pub open spec fn count_char(text: Seq<char>, c: char) -> nat
    decreases text.len(),
{
    if text.len() == 0 {
        0
    } else {
        count_char(text.drop_last(), c) + if text.last() == c {
            1nat
        } else {
            0nat
        }
    }
}

/// A character occurs in two texts in a row as often as in both together.
pub proof fn lemma_count_concat(a: Seq<char>, b: Seq<char>, c: char)
    ensures
        count_char(a + b, c) == count_char(a, c) + count_char(b, c),
    decreases b.len(),
{
    if b.len() == 0 {
        assert(a + b =~= a);
    } else {
        lemma_count_concat(a, b.drop_last(), c);
        assert((a + b).drop_last() =~= a + b.drop_last());
    }
}

/// A character that a text holds is counted at least once.
pub proof fn lemma_count_positive(text: Seq<char>, c: char, i: int)
    requires
        0 <= i < text.len(),
        text[i] == c,
    ensures
        count_char(text, c) > 0,
    decreases text.len(),
{
    if i < text.len() - 1 {
        lemma_count_positive(text.drop_last(), c, i);
    }
}

/// Whether `c` occurs in `text`.
pub fn has_char(text: &str, c: char) -> (r: bool)
    ensures
        r == (count_char(text@, c) > 0),
{
    let chars = chars_of(text);
    let mut i: usize = 0;
    while i < chars.len()
        invariant
            i <= chars@.len(),
            chars@ == text@,
            count_char(chars@.take(i as int), c) == 0,
        decreases chars@.len() - i,
    {
        if chars[i] == c {
            proof {
                lemma_count_positive(chars@, c, i as int);
            }
            return true;
        }
        proof {
            assert(chars@.take(i + 1).drop_last() =~= chars@.take(i as int));
        }
        i += 1;
    }
    assert(chars@.take(i as int) =~= chars@);
    false
}

/// `text` with its first occurrence of `needle` replaced by `with`.
pub open spec fn replace_first(text: Seq<char>, needle: Seq<char>, with: Seq<char>) -> Seq<char> {
    let s = first_occurrence(text, needle);
    splice(text, s, s + needle.len(), with)
}

/// `text` after the first occurrence of `needle` has been replaced by `with`
/// `steps` times, or until `needle` occurs nowhere if that comes first.
pub open spec fn replaced_times(
    text: Seq<char>,
    needle: Seq<char>,
    with: Seq<char>,
    steps: nat,
) -> Seq<char>
    decreases steps,
{
    if steps == 0 || !has_occurrence(text, needle) {
        text
    } else {
        replaced_times(replace_first(text, needle, with), needle, with, (steps - 1) as nat)
    }
}

/// Whether `needle` occurs nowhere after its first occurrence in `text` has
/// been replaced by `with` at most `steps` times.
pub open spec fn settles_within(
    text: Seq<char>,
    needle: Seq<char>,
    with: Seq<char>,
    steps: nat,
) -> bool {
    !has_occurrence(replaced_times(text, needle, with, steps), needle)
}

/// Whether replacing the first occurrence of `needle` in `text` by `with`,
/// again and again, comes to an end.
pub open spec fn settles(text: Seq<char>, needle: Seq<char>, with: Seq<char>) -> bool {
    exists|steps: nat| settles_within(text, needle, with, steps)
}

/// `text` after the first occurrence of `needle` has been replaced by `with`
/// until `needle` occurs nowhere, where the replacing comes to an end.
pub open spec fn replace_until_none(text: Seq<char>, needle: Seq<char>, with: Seq<char>) -> Seq<
    char,
> {
    replaced_times(
        text,
        needle,
        with,
        choose|steps: nat| settles_within(text, needle, with, steps),
    )
}

/// Once `needle` occurs nowhere, further replacing changes nothing.
pub proof fn lemma_settled_stays(
    text: Seq<char>,
    needle: Seq<char>,
    with: Seq<char>,
    steps: nat,
    more: nat,
)
    requires
        settles_within(text, needle, with, steps),
        steps <= more,
    ensures
        replaced_times(text, needle, with, more) == replaced_times(text, needle, with, steps),
    decreases steps,
{
    if steps > 0 && has_occurrence(text, needle) {
        lemma_settled_stays(
            replace_first(text, needle, with),
            needle,
            with,
            (steps - 1) as nat,
            (more - 1) as nat,
        );
    }
}

/// Whatever number of replacements brings the replacing to an end, the text
/// at the end is the same.
pub proof fn lemma_replace_until_none(
    text: Seq<char>,
    needle: Seq<char>,
    with: Seq<char>,
    steps: nat,
)
    requires
        settles_within(text, needle, with, steps),
    ensures
        replace_until_none(text, needle, with) == replaced_times(text, needle, with, steps),
{
    let chosen = choose|steps: nat| settles_within(text, needle, with, steps);
    if chosen <= steps {
        lemma_settled_stays(text, needle, with, chosen, steps);
    } else {
        lemma_settled_stays(text, needle, with, steps, chosen);
    }
}

/// Replacing an occurrence of `needle` by a text without its first character
/// leaves fewer of that character.
pub proof fn lemma_splice_count(text: Seq<char>, needle: Seq<char>, with: Seq<char>, s: int)
    requires
        needle.len() > 0,
        count_char(with, needle[0]) == 0,
        occurs_at(text, needle, s, s + needle.len()),
    ensures
        count_char(splice(text, s, s + needle.len(), with), needle[0]) < count_char(
            text,
            needle[0],
        ),
{
    let c = needle[0];
    let e = s + needle.len();
    let head = text.subrange(0, s);
    let tail = text.subrange(e, text.len() as int);
    assert(text =~= head + needle + tail);
    lemma_count_concat(head + needle, tail, c);
    lemma_count_concat(head, needle, c);
    lemma_count_concat(head + with, tail, c);
    lemma_count_concat(head, with, c);
    lemma_count_positive(needle, c, 0);
}

/// The replacing comes to an end wherever `with` lacks the first character
/// of `needle`: every replacement takes one of that character away.
pub proof fn lemma_settles_without_first_char(
    text: Seq<char>,
    needle: Seq<char>,
    with: Seq<char>,
)
    requires
        needle.len() > 0,
        count_char(with, needle[0]) == 0,
    ensures
        settles_within(text, needle, with, count_char(text, needle[0])),
        settles(text, needle, with),
    decreases count_char(text, needle[0]),
{
    let steps = count_char(text, needle[0]);
    if has_occurrence(text, needle) {
        let s = first_occurrence(text, needle);
        assert(is_first_occurrence(text, needle, s));
        lemma_splice_count(text, needle, with, s);
        let next = replace_first(text, needle, with);
        lemma_settles_without_first_char(next, needle, with);
        lemma_settled_stays(next, needle, with, count_char(next, needle[0]), (steps - 1) as nat);
    }
    assert(settles_within(text, needle, with, steps));
}

/// Replaces the first occurrence of `needle` in `text` by `with` until
/// `needle` occurs nowhere. The replacing must come to an end, as it does
/// wherever `with` lacks the first character of `needle`.
pub fn replace_all_rescanning(text: &mut String, needle: &str, with: &str)
    requires
        settles(old(text)@, needle@, with@),
    ensures
        final(text)@ == replace_until_none(old(text)@, needle@, with@),
        !has_occurrence(final(text)@, needle@),
{
    let ghost mut left: nat = choose|steps: nat| settles_within(text@, needle@, with@, steps);
    loop
        invariant
            settles_within(text@, needle@, with@, left),
            replaced_times(text@, needle@, with@, left) == replace_until_none(
                old(text)@,
                needle@,
                with@,
            ),
        ensures
            text@ == replace_until_none(old(text)@, needle@, with@),
            !has_occurrence(text@, needle@),
        decreases left,
    {
        match find_str(text.as_str(), needle) {
            Some(start) => {
                let ghost before = text@;
                let ghost s = choose|s: int|
                    is_first_occurrence(before, needle@, s) && start == #[trigger] byte_offset(
                        before,
                        s,
                    );
                let ghost e = s + needle@.len();
                proof {
                    assert forall|s2: int| is_first_occurrence(before, needle@, s2) implies s2
                        == s by {}
                    assert(first_occurrence(before, needle@) == s);
                    assert(has_occurrence(before, needle@));
                    lemma_byte_offset_step(before, s, e);
                }
                let total = text.as_str().as_bytes().len();
                let needle_len = needle.as_bytes().len();
                let end = start + needle_len;
                assert(covers(before, start, end, s, e));
                replace_range(text, start, end, with);
                proof {
                    assert(text@ == replace_first(before, needle@, with@));
                    left = (left - 1) as nat;
                }
            },
            None => {
                break ;
            },
        }
    }
}

} // verus!
