//! Lexical tokens.

use vstd::prelude::*;

verus! {

/// The kind of a token.
#[derive(Debug, Clone, Copy, PartialEq, Eq, Structural)]
pub enum Token {
    /// `[`
    LeftBracket,
    /// `[*`
    LeftBracketStar,
    /// `]`
    RightBracket,
    /// `[[`
    LeftBlock,
    /// `[[/`
    LeftBlockEnd,
    /// `[[*`
    LeftBlockStar,
    /// `]]`
    RightBlock,
    /// `--`
    DoubleDash,
    /// `:`
    Colon,
    /// `=`
    Equals,
    /// `"`
    Quote,
    /// One to six `+` at the start of a line.
    Heading,
    /// `**`
    Bold,
    /// `//`
    Italics,
    /// `__`
    Underline,
    /// `^^`
    Superscript,
    /// `,,`
    Subscript,
    /// `{{`
    LeftMonospace,
    /// `}}`
    RightMonospace,
    /// `*` with nothing but spaces before it on its line.
    BulletItem,
    /// `#` with nothing but spaces before it on its line.
    NumberedItem,
    /// A run of spaces.
    Whitespace,
    /// One newline.
    LineBreak,
    /// Two or more newlines.
    ParagraphBreak,
    /// A run of ASCII letters and digits.
    Identifier,
    /// Any other character.
    Other,
    /// The start of the input; its slice is empty.
    InputStart,
    /// The end of the input; its slice is empty.
    InputEnd,
}

/// A range of offsets into the preprocessed input, `end` excluded.
#[derive(Debug, Clone, Copy, PartialEq, Eq, Structural)]
pub struct Span {
    pub start: usize,
    pub end: usize,
}

/// A token together with the text it covers.
#[derive(Debug, Clone, PartialEq, Eq)]
pub struct ExtractedToken {
    /// The kind of the token.
    pub token: Token,
    /// The text that the token covers.
    pub slice: String,
    /// Where the token stands in the input, in bytes of its UTF-8 form.
    pub span: Span,
    /// Where the token stands in the input, in characters.
    pub chars: Span,
}

/// The text that a sequence of tokens covers: their slices in a row.
pub open spec fn slices_concat(tokens: Seq<ExtractedToken>) -> Seq<char>
    decreases tokens.len(),
{
    if tokens.len() == 0 {
        Seq::empty()
    } else {
        slices_concat(tokens.drop_last()) + tokens.last().slice@
    }
}

} // verus!
