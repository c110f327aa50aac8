//! The tokenizer: a single pass over the preprocessed input.

use crate::parsing::token::{slices_concat, ExtractedToken, Span, Token};
use crate::text::{byte_offset, chars_of, lemma_byte_offset_step, occurs_at, string_of};
use vstd::prelude::*;

verus! {

/// The symbols with a token of their own, each before any symbol that is a
/// prefix of it, so that the first that occurs at a position is the longest.
pub open spec fn symbols() -> Seq<(Seq<char>, Token)> {
    seq![
        ("[[/"@, Token::LeftBlockEnd),
        ("[[*"@, Token::LeftBlockStar),
        ("[["@, Token::LeftBlock),
        ("[*"@, Token::LeftBracketStar),
        ("["@, Token::LeftBracket),
        ("]]"@, Token::RightBlock),
        ("]"@, Token::RightBracket),
        ("**"@, Token::Bold),
        ("//"@, Token::Italics),
        ("__"@, Token::Underline),
        ("^^"@, Token::Superscript),
        (",,"@, Token::Subscript),
        ("{{"@, Token::LeftMonospace),
        ("}}"@, Token::RightMonospace),
        ("--"@, Token::DoubleDash),
        (":"@, Token::Colon),
        ("="@, Token::Equals),
        ("\""@, Token::Quote),
    ]
}

/// Whether symbol `i` of `table` is not empty and occurs in `text` at `pos`.
pub open spec fn symbol_occurs(
    table: Seq<(Seq<char>, Token)>,
    i: int,
    text: Seq<char>,
    pos: int,
) -> bool {
    &&& 0 <= i < table.len()
    &&& table[i].0.len() > 0
    &&& occurs_at(text, table[i].0, pos, pos + table[i].0.len())
}

/// Whether symbol `i` of `table` is the first that occurs in `text` at `pos`.
pub open spec fn first_symbol(
    table: Seq<(Seq<char>, Token)>,
    i: int,
    text: Seq<char>,
    pos: int,
) -> bool {
    &&& symbol_occurs(table, i, text, pos)
    &&& forall|j: int| 0 <= j < i ==> !symbol_occurs(table, j, text, pos)
}

/// Whether `c` is an ASCII letter or digit.
pub open spec fn is_alphanumeric(c: char) -> bool {
    ('a' <= c <= 'z') || ('A' <= c <= 'Z') || ('0' <= c <= '9')
}

/// The class of characters that a run starting with `c` is made of.
pub enum Run {
    Newlines,
    Spaces,
    Pluses,
    Alphanumerics,
}

impl Run {
    /// Whether `c` belongs to this class.
    pub open spec fn holds(self, c: char) -> bool {
        match self {
            Run::Newlines => c == '\n',
            Run::Spaces => c == ' ',
            Run::Pluses => c == '+',
            Run::Alphanumerics => is_alphanumeric(c),
        }
    }

    /// Whether `c` belongs to this class.
    pub fn test(&self, c: char) -> (r: bool)
        ensures
            r == self.holds(c),
    {
        match self {
            Run::Newlines => c == '\n',
            Run::Spaces => c == ' ',
            Run::Pluses => c == '+',
            Run::Alphanumerics => ('a' <= c && c <= 'z') || ('A' <= c && c <= 'Z') || ('0' <= c
                && c <= '9'),
        }
    }
}

/// Whether `text[pos..end]` is the longest stretch at `pos` of characters in
/// the class `run`, cut off at `limit` characters.
pub open spec fn is_run(text: Seq<char>, pos: int, end: int, run: Run, limit: int) -> bool {
    &&& 0 <= pos <= end <= text.len()
    &&& end - pos <= limit
    &&& forall|i: int| pos <= i < end ==> run.holds(#[trigger] text[i])
    &&& end == text.len() || end - pos == limit || !run.holds(text[end])
}

/// Whether a token of this kind ends a line or starts the input.
pub open spec fn starts_line(token: Token) -> bool {
    token == Token::InputStart || token == Token::LineBreak || token == Token::ParagraphBreak
}

/// Whether token `i` is the first of its line.
pub open spec fn at_line_start(tokens: Seq<ExtractedToken>, i: int) -> bool {
    i >= 1 && starts_line(tokens[i - 1].token)
}

/// Whether token `i` is the first of its line but for a run of spaces before
/// it.
pub open spec fn at_line_indent(tokens: Seq<ExtractedToken>, i: int) -> bool {
    ||| at_line_start(tokens, i)
    ||| i >= 2 && tokens[i - 1].token == Token::Whitespace && starts_line(tokens[i - 2].token)
}

/// The most `+` that a heading token holds.
pub const MAX_HEADING_PLUSES: usize = 6;

/// Whether the token that starts at `pos` in `text` has kind `token` and ends
/// before `end`, where `line_start` says that the token is the first of its
/// line and `line_indent` that at most a run of spaces stands before it on
/// its line. The first of these that applies decides:
/// * a newline starts a run of newlines: a line break if it is alone, else a
///   paragraph break;
/// * a space starts a run of spaces;
/// * a symbol of [`symbols`] stands for itself, the longest that fits;
/// * `+` at the start of a line starts a heading of up to six `+`;
/// * `*` or `#` after at most a run of spaces on its line is a list marker;
/// * a letter or digit starts an identifier;
/// * any other character is a token by itself.
pub open spec fn token_at(
    text: Seq<char>,
    pos: int,
    line_start: bool,
    line_indent: bool,
    token: Token,
    end: int,
) -> bool {
    let c = text[pos];
    if c == '\n' {
        &&& is_run(text, pos, end, Run::Newlines, text.len() as int)
        &&& token == if end == pos + 1 {
            Token::LineBreak
        } else {
            Token::ParagraphBreak
        }
    } else if c == ' ' {
        is_run(text, pos, end, Run::Spaces, text.len() as int) && token == Token::Whitespace
    } else if exists|i: int| first_symbol(symbols(), i, text, pos) {
        exists|i: int|
            first_symbol(symbols(), i, text, pos) && token == symbols()[i].1 && end == pos
                + symbols()[i].0.len()
    } else if c == '+' && line_start {
        is_run(text, pos, end, Run::Pluses, MAX_HEADING_PLUSES as int) && token == Token::Heading
    } else if c == '*' && line_indent {
        token == Token::BulletItem && end == pos + 1
    } else if c == '#' && line_indent {
        token == Token::NumberedItem && end == pos + 1
    } else if is_alphanumeric(c) {
        is_run(text, pos, end, Run::Alphanumerics, text.len() as int) && token
            == Token::Identifier
    } else {
        token == Token::Other && end == pos + 1
    }
}

/// Whether the slice of token `i` is the text at its place.
pub open spec fn slice_fits(text: Seq<char>, tokens: Seq<ExtractedToken>, i: int) -> bool {
    tokens[i].slice@ == text.subrange(tokens[i].chars.start as int, tokens[i].chars.end as int)
}

/// Whether token `i + 1` starts where token `i` ends.
pub open spec fn adjacent(tokens: Seq<ExtractedToken>, i: int) -> bool {
    tokens[i].chars.end == tokens[i + 1].chars.start
}

/// Whether token `i` is the token that [`token_at`] gives at its start, and
/// is not empty.
pub open spec fn token_fits(text: Seq<char>, tokens: Seq<ExtractedToken>, i: int) -> bool {
    &&& token_at(
        text,
        tokens[i].chars.start as int,
        at_line_start(tokens, i),
        at_line_indent(tokens, i),
        tokens[i].token,
        tokens[i].chars.end as int,
    )
    &&& tokens[i].chars.start < tokens[i].chars.end <= text.len()
}

/// Whether the span of token `i` gives in bytes what its place in the text is
/// in characters.
pub open spec fn span_fits(text: Seq<char>, tokens: Seq<ExtractedToken>, i: int) -> bool {
    &&& tokens[i].span.start == byte_offset(text, tokens[i].chars.start as int)
    &&& tokens[i].span.end == byte_offset(text, tokens[i].chars.end as int)
}

/// Whether `tokens` is the tokenization of `text`: an `InputStart`, then the
/// tokens that [`token_at`] gives from the start of the text to its end, each
/// starting where the one before ends, then an `InputEnd`.
pub open spec fn tokenizes(text: Seq<char>, tokens: Seq<ExtractedToken>) -> bool {
    let last = tokens.len() - 1;
    &&& tokens.len() >= 2
    &&& tokens[0].token == Token::InputStart
    &&& tokens[0].chars == (Span { start: 0, end: 0 })
    &&& tokens[last].token == Token::InputEnd
    &&& tokens[last].chars.start == text.len()
    &&& tokens[last].chars.end == text.len()
    &&& forall|i: int| 0 <= i < tokens.len() ==> #[trigger] slice_fits(text, tokens, i)
    &&& forall|i: int| 0 <= i < tokens.len() ==> #[trigger] span_fits(text, tokens, i)
    &&& forall|i: int| 0 <= i < last ==> #[trigger] adjacent(tokens, i)
    &&& forall|i: int| 0 < i < last ==> #[trigger] token_fits(text, tokens, i)
}

/// The end of the run of `run` characters that starts at `pos`, at most
/// `limit` characters long.
fn scan_run(chars: &Vec<char>, pos: usize, run: Run, limit: usize) -> (end: usize)
    requires
        pos <= chars.len(),
    ensures
        is_run(chars@, pos as int, end as int, run, limit as int),
{
    let mut end = pos;
    while end < chars.len() && end - pos < limit && run.test(chars[end])
        invariant
            pos <= end <= chars.len(),
            end - pos <= limit,
            forall|i: int| pos <= i < end ==> run.holds(#[trigger] chars@[i]),
        decreases chars.len() - end,
    {
        end += 1;
    }
    end
}

/// Whether `needle` stands in `chars` at `pos`.
fn stands_at(chars: &Vec<char>, pos: usize, needle: &Vec<char>) -> (r: bool)
    requires
        pos <= chars.len(),
    ensures
        r == occurs_at(chars@, needle@, pos as int, pos + needle@.len()),
{
    if needle.len() > chars.len() - pos {
        return false;
    }
    let mut i: usize = 0;
    while i < needle.len()
        invariant
            i <= needle.len(),
            pos + needle.len() <= chars.len(),
            forall|j: int| 0 <= j < i ==> chars@[pos + j] == needle@[j],
        decreases needle.len() - i,
    {
        if chars[pos + i] != needle[i] {
            assert(chars@.subrange(pos as int, pos + needle@.len())[i as int] != needle@[i as int]);
            return false;
        }
        i += 1;
    }
    assert(chars@.subrange(pos as int, pos + needle@.len()) =~= needle@);
    true
}

/// The symbols of [`symbols`], ready to be compared with the input.
pub struct SymbolTable {
    entries: Vec<(Vec<char>, Token)>,
}

impl SymbolTable {
    /// What the table holds.
    pub closed spec fn view(&self) -> Seq<(Seq<char>, Token)> {
        Seq::new(self.entries@.len(), |i: int| (self.entries@[i].0@, self.entries@[i].1))
    }

    fn add(&mut self, symbol: &str, token: Token)
        ensures
            final(self).view() == old(self).view().push((symbol@, token)),
    {
        self.entries.push((chars_of(symbol), token));
        assert(self.view() =~= old(self).view().push((symbol@, token)));
    }

    /// The table of [`symbols`].
    pub fn new() -> (r: SymbolTable)
        ensures
            r.view() == symbols(),
    {
        let mut table = SymbolTable { entries: Vec::new() };
        assert(table.view() =~= Seq::empty());
        table.add("[[/", Token::LeftBlockEnd);
        table.add("[[*", Token::LeftBlockStar);
        table.add("[[", Token::LeftBlock);
        table.add("[*", Token::LeftBracketStar);
        table.add("[", Token::LeftBracket);
        table.add("]]", Token::RightBlock);
        table.add("]", Token::RightBracket);
        table.add("**", Token::Bold);
        table.add("//", Token::Italics);
        table.add("__", Token::Underline);
        table.add("^^", Token::Superscript);
        table.add(",,", Token::Subscript);
        table.add("{{", Token::LeftMonospace);
        table.add("}}", Token::RightMonospace);
        table.add("--", Token::DoubleDash);
        table.add(":", Token::Colon);
        table.add("=", Token::Equals);
        table.add("\"", Token::Quote);
        assert(table.view() =~= symbols());
        table
    }

    /// The first symbol that stands in `chars` at `pos`: its token and its end.
    fn find(&self, chars: &Vec<char>, pos: usize) -> (r: Option<(Token, usize)>)
        requires
            pos < chars.len(),
        ensures
            match r {
                Some((token, end)) => exists|i: int|
                    first_symbol(self.view(), i, chars@, pos as int) && token == self.view()[i].1
                        && end == pos + self.view()[i].0.len(),
                None => forall|i: int| !first_symbol(self.view(), i, chars@, pos as int),
            },
    {
        let mut i: usize = 0;
        while i < self.entries.len()
            invariant
                i <= self.entries.len(),
                pos < chars.len(),
                forall|j: int| 0 <= j < i ==> !symbol_occurs(self.view(), j, chars@, pos as int),
            decreases self.entries.len() - i,
        {
            let symbol = &self.entries[i].0;
            if symbol.len() > 0 && stands_at(chars, pos, symbol) {
                assert(first_symbol(self.view(), i as int, chars@, pos as int));
                return Some((self.entries[i].1, pos + symbol.len()));
            }
            i += 1;
        }
        None
    }
}

/// The kind and the end of the token that starts at `pos`.
fn next_token(
    table: &SymbolTable,
    chars: &Vec<char>,
    pos: usize,
    line_start: bool,
    line_indent: bool,
) -> (r: (Token, usize))
    requires
        pos < chars.len(),
        table.view() == symbols(),
    ensures
        token_at(chars@, pos as int, line_start, line_indent, r.0, r.1 as int),
        pos < r.1 <= chars.len(),
{
    let c = chars[pos];
    if c == '\n' {
        let end = scan_run(chars, pos, Run::Newlines, chars.len());
        if end == pos + 1 {
            (Token::LineBreak, end)
        } else {
            (Token::ParagraphBreak, end)
        }
    } else if c == ' ' {
        (Token::Whitespace, scan_run(chars, pos, Run::Spaces, chars.len()))
    } else {
        match table.find(chars, pos) {
            Some(found) => found,
            None => {
                if c == '+' && line_start {
                    (Token::Heading, scan_run(chars, pos, Run::Pluses, MAX_HEADING_PLUSES))
                } else if c == '*' && line_indent {
                    (Token::BulletItem, pos + 1)
                } else if c == '#' && line_indent {
                    (Token::NumberedItem, pos + 1)
                } else if Run::Alphanumerics.test(c) {
                    (Token::Identifier, scan_run(chars, pos, Run::Alphanumerics, chars.len()))
                } else {
                    (Token::Other, pos + 1)
                }
            },
        }
    }
}

/// The tokens of a text, and the text itself.
#[derive(Debug, PartialEq, Eq)]
pub struct Tokenization {
    tokens: Vec<ExtractedToken>,
    full_text: String,
}

impl Tokenization {
    #[verifier::type_invariant]
    spec fn consistent(&self) -> bool {
        tokenizes(self.full_text@, self.tokens@)
    }

    /// The tokens.
    pub closed spec fn spec_tokens(&self) -> Seq<ExtractedToken> {
        self.tokens@
    }

    /// The text that was tokenized.
    pub closed spec fn spec_full_text(&self) -> Seq<char> {
        self.full_text@
    }

    /// The tokens.
    pub fn tokens(&self) -> (r: &Vec<ExtractedToken>)
        ensures
            r@ == self.spec_tokens(),
            tokenizes(self.spec_full_text(), self.spec_tokens()),
    {
        proof {
            use_type_invariant(self);
        }
        &self.tokens
    }

    /// The text that was tokenized.
    pub fn full_text(&self) -> (r: &str)
        ensures
            r@ == self.spec_full_text(),
    {
        self.full_text.as_str()
    }

    /// The tokens, without the text.
    pub fn into_tokens(self) -> (r: Vec<ExtractedToken>)
        ensures
            r@ == self.spec_tokens(),
            tokenizes(self.spec_full_text(), self.spec_tokens()),
    {
        proof {
            use_type_invariant(&self);
        }
        self.tokens
    }
}

/// Whether a token of this kind ends a line or starts the input.
pub fn token_starts_line(token: Token) -> (r: bool)
    ensures
        r == starts_line(token),
{
    match token {
        Token::InputStart | Token::LineBreak | Token::ParagraphBreak => true,
        _ => false,
    }
}

/// Splits preprocessed text into tokens. The tokens cover the text without
/// a gap: their slices, put in a row, are the text.
#[verifier::rlimit(40)]
pub fn tokenize(text: &str) -> (r: Tokenization)
    ensures
        tokenizes(text@, r.spec_tokens()),
        r.spec_full_text() == text@,
        slices_concat(r.spec_tokens()) == text@,
{
    let chars = chars_of(text);
    let table = SymbolTable::new();
    let mut tokens: Vec<ExtractedToken> = Vec::new();
    let total = text.as_bytes().len();
    proof {
        assert(chars@.subrange(0, 0) =~= Seq::<char>::empty());
    }
    tokens.push(
        ExtractedToken {
            token: Token::InputStart,
            slice: string_of(&chars, 0, 0),
            span: Span { start: 0, end: 0 },
            chars: Span { start: 0, end: 0 },
        },
    );
    let mut pos: usize = 0;
    let mut byte_pos: usize = 0;
    let mut line_start = true;
    let mut line_indent = true;
    assert(slice_fits(chars@, tokens@, 0));
    assert(span_fits(chars@, tokens@, 0));
    while pos < chars.len()
        invariant
            pos <= chars.len(),
            table.view() == symbols(),
            tokens@.len() >= 1,
            tokens@[0].token == Token::InputStart,
            tokens@[0].chars == (Span { start: 0, end: 0 }),
            tokens@.last().chars.end == pos,
            chars@ == text@,
            total == vstd::utf8::encode_utf8(chars@).len(),
            byte_pos == byte_offset(chars@, pos as int),
            forall|i: int| 0 <= i < tokens@.len() ==> #[trigger] span_fits(chars@, tokens@, i),
            line_start == at_line_start(tokens@, tokens@.len() as int),
            line_indent == at_line_indent(tokens@, tokens@.len() as int),
            forall|i: int| 0 <= i < tokens@.len() ==> #[trigger] slice_fits(chars@, tokens@, i),
            forall|i: int| 0 <= i < tokens@.len() - 1 ==> #[trigger] adjacent(tokens@, i),
            forall|i: int| 0 < i < tokens@.len() ==> #[trigger] token_fits(chars@, tokens@, i),
        decreases chars.len() - pos,
    {
        let (token, end) = next_token(&table, &chars, pos, line_start, line_indent);
        let ghost before = tokens@;
        let was_line_start = line_start;
        let slice = string_of(&chars, pos, end);
        let width = slice.as_str().as_bytes().len();
        proof {
            lemma_byte_offset_step(chars@, pos as int, end as int);
        }
        let byte_end = byte_pos + width;
        tokens.push(
            ExtractedToken {
                token,
                slice,
                span: Span { start: byte_pos, end: byte_end },
                chars: Span { start: pos, end },
            },
        );
        proof {
            let n = before.len() as int;
            assert forall|i: int| 0 <= i < tokens@.len() implies #[trigger] span_fits(
                chars@,
                tokens@,
                i,
            ) by {
                if i < n {
                    assert(span_fits(chars@, before, i));
                }
            }
            assert forall|i: int| 0 <= i < tokens@.len() implies #[trigger] slice_fits(
                chars@,
                tokens@,
                i,
            ) by {
                if i < n {
                    assert(slice_fits(chars@, before, i));
                }
            }
            assert forall|i: int| 0 <= i < tokens@.len() - 1 implies #[trigger] adjacent(
                tokens@,
                i,
            ) by {
                if i < n - 1 {
                    assert(adjacent(before, i));
                }
            }
            assert forall|i: int| 0 < i < tokens@.len() implies #[trigger] token_fits(
                chars@,
                tokens@,
                i,
            ) by {
                if i < n {
                    assert(token_fits(chars@, before, i));
                }
            }
        }
        line_start = token_starts_line(token);
        line_indent = line_start || (was_line_start && token == Token::Whitespace);
        pos = end;
        byte_pos = byte_end;
    }
    let ghost before = tokens@;
    tokens.push(
        ExtractedToken {
            token: Token::InputEnd,
            slice: string_of(&chars, pos, pos),
            span: Span { start: byte_pos, end: byte_pos },
            chars: Span { start: pos, end: pos },
        },
    );
    proof {
        let n = before.len() as int;
        assert forall|i: int| 0 <= i < tokens@.len() implies #[trigger] span_fits(
            chars@,
            tokens@,
            i,
        ) by {
            if i < n {
                assert(span_fits(chars@, before, i));
            }
        }
        assert forall|i: int| 0 <= i < tokens@.len() implies #[trigger] slice_fits(
            chars@,
            tokens@,
            i,
        ) by {
            if i < n {
                assert(slice_fits(chars@, before, i));
            }
        }
        assert forall|i: int| 0 <= i < tokens@.len() - 1 implies #[trigger] adjacent(tokens@, i) by {
            if i < n - 1 {
                assert(adjacent(before, i));
            }
        }
        assert forall|i: int| 0 < i < tokens@.len() - 1 implies #[trigger] token_fits(
            chars@,
            tokens@,
            i,
        ) by {
            assert(token_fits(chars@, before, i));
        }
    }
    let full_text = string_of(&chars, 0, chars.len());
    proof {
        assert(chars@.subrange(0, chars@.len() as int) =~= chars@);
        lemma_tokens_cover_text(chars@, tokens@);
    }
    Tokenization { tokens, full_text }
}

/// No token of a tokenization but the last ends the input.
pub proof fn lemma_tokens_parseable(text: Seq<char>, tokens: Seq<ExtractedToken>)
    requires
        tokenizes(text, tokens),
        tokens.len() <= usize::MAX,
    ensures
        crate::parsing::parser::parseable(tokens),
{
    assert forall|i: int| 0 <= i < tokens.len() implies ((#[trigger] tokens[i]).token
        == Token::InputEnd <==> i == tokens.len() - 1) by {
        if 0 < i < tokens.len() - 1 {
            assert(token_fits(text, tokens, i));
            assert forall|k: int| 0 <= k < symbols().len() implies (#[trigger] symbols()[k]).1
                != Token::InputEnd by {}
        }
    }
}

/// The slices of a tokenization, put in a row, are the text.
pub proof fn lemma_tokens_cover_text(text: Seq<char>, tokens: Seq<ExtractedToken>)
    requires
        tokenizes(text, tokens),
    ensures
        slices_concat(tokens) == text,
{
    lemma_prefix_covers(text, tokens, tokens.len() as int);
    assert(tokens.subrange(0, tokens.len() as int) =~= tokens);
    assert(text.subrange(0, text.len() as int) =~= text);
}

/// The slices of the first `n` tokens, put in a row, are the text up to the
/// end of the last of them.
proof fn lemma_prefix_covers(text: Seq<char>, tokens: Seq<ExtractedToken>, n: int)
    requires
        tokenizes(text, tokens),
        1 <= n <= tokens.len(),
    ensures
        slices_concat(tokens.subrange(0, n)) == text.subrange(0, tokens[n - 1].chars.end as int),
        tokens[n - 1].chars.start <= tokens[n - 1].chars.end <= text.len(),
    decreases n,
{
    let prefix = tokens.subrange(0, n);
    assert(prefix.last() == tokens[n - 1]);
    if n == 1 {
        assert(slice_fits(text, tokens, 0));
        assert(prefix.drop_last() =~= Seq::<ExtractedToken>::empty());
        assert(slices_concat(prefix.drop_last()) =~= Seq::<char>::empty());
        assert(slices_concat(prefix) =~= text.subrange(0, 0));
    } else {
        lemma_prefix_covers(text, tokens, n - 1);
        assert(prefix.drop_last() =~= tokens.subrange(0, n - 1));
        assert(adjacent(tokens, n - 2));
        assert(slice_fits(text, tokens, n - 1));
        if n < tokens.len() {
            assert(token_fits(text, tokens, n - 1));
        }
        assert(slices_concat(prefix) =~= text.subrange(0, tokens[n - 1].chars.end as int));
    }
}

} // verus!
