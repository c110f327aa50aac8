//! What a rule returns: elements and warnings on success, a warning on failure.

use crate::parsing::token::{Span, Token};
use crate::tree::element::{element_views, Element, SpecElement};
use vstd::prelude::*;

verus! {

/// A rule of the parser, named in warnings and used to pick what to try.
#[derive(Debug, Clone, Copy, PartialEq, Eq, Structural)]
pub enum Rule {
    /// The top level of the page.
    Page,
    /// A token that becomes plain text because no other rule matched.
    Fallback,
    /// A token that is plain text.
    Text,
    /// A token that gives nothing.
    Null,
    LineBreak,
    LineBreakParagraph,
    EmDash,
    Bold,
    Italics,
    Underline,
    Strikethrough,
    Superscript,
    Subscript,
    Monospace,
    Header,
    LinkSingle,
    LinkSingleNewTab,
    List,
    DefinitionList,
    DefinitionListSkipNewline,
    Block,
    BlockStar,
}

impl Rule {
    /// Whether this rule only applies to the first token of a line.
    pub open spec fn spec_needs_line_start(self) -> bool {
        self == Rule::DefinitionList || self == Rule::Header
    }

    /// Whether this rule only applies to the first token of a line.
    pub fn needs_line_start(self) -> (r: bool)
        ensures
            r == self.spec_needs_line_start(),
    {
        match self {
            Rule::DefinitionList | Rule::Header => true,
            _ => false,
        }
    }
}

/// Why a rule did not match.
#[derive(Debug, Clone, Copy, PartialEq, Eq, Structural)]
pub enum ParseWarningKind {
    /// The tokens do not have the shape the rule asks for.
    RuleFailed,
    /// The rule only applies at the start of a line.
    NotStartOfLine,
    /// The input ended inside the construct.
    EndOfInput,
    /// No rule matched the token, which became plain text.
    NoRulesMatch,
    /// A link's URL is empty or not a URL.
    InvalidUrl,
    /// A list has no item.
    ListEmpty,
    /// An item of a list has a marker of another kind than the list that it
    /// joins; the list keeps its kind.
    ListTypeMismatch,
    /// A block has no name.
    BlockExpectedName,
    /// No block has the given name.
    NoSuchBlock,
    /// The block does not take the `*` flag.
    BlockDisallowsStar,
    /// The block does not take the `_` flag.
    BlockDisallowsScore,
    /// The arguments of a block are malformed.
    BlockMalformedArguments,
    /// The block is only valid inside another block.
    BlockNotAccepted,
    /// The input ends before the block is closed.
    BlockMissingClose,
}

/// A non-fatal diagnostic: which rule gave up on which token, and why.
#[derive(Debug, Clone, Copy, PartialEq, Eq, Structural)]
pub struct ParseWarning {
    pub token: Token,
    pub rule: Rule,
    pub span: Span,
    pub kind: ParseWarningKind,
}

/// Nothing, one element, or several elements.
#[derive(Debug, PartialEq, Eq)]
pub enum Elements {
    Empty,
    Single(Element),
    Multiple(Vec<Element>),
}

impl View for Elements {
    type V = Seq<SpecElement>;

    open spec fn view(&self) -> Seq<SpecElement> {
        match self {
            Elements::Empty => Seq::empty(),
            Elements::Single(element) => seq![element@],
            Elements::Multiple(elements) => element_views(elements@),
        }
    }
}

/// The views of elements appended to a list are appended to the views.
pub proof fn lemma_views_push(elements: Seq<Element>, element: Element)
    ensures
        element_views(elements.push(element)) == element_views(elements).push(element@),
{
    assert(element_views(elements.push(element)) =~= element_views(elements).push(element@));
}

/// The views of two lists in a row are the views of each in a row.
pub proof fn lemma_views_concat(a: Seq<Element>, b: Seq<Element>)
    ensures
        element_views(a + b) == element_views(a) + element_views(b),
{
    assert(element_views(a + b) =~= element_views(a) + element_views(b));
}

impl Elements {
    /// Whether this is nothing or a single element. So it is with what the
    /// rules give, and there the elements tell which of the two it is.
    pub open spec fn one_at_most(&self) -> bool {
        !(self is Multiple)
    }

    /// The elements as a list.
    pub fn into_vec(self) -> (r: Vec<Element>)
        ensures
            element_views(r@) == self@,
    {
        match self {
            Elements::Empty => {
                let r: Vec<Element> = Vec::new();
                assert(element_views(r@) =~= Seq::empty());
                r
            },
            Elements::Single(element) => {
                let mut r: Vec<Element> = Vec::new();
                r.push(element);
                assert(element_views(r@) =~= seq![element@]);
                r
            },
            Elements::Multiple(elements) => elements,
        }
    }

    /// Appends the elements to `out`.
    pub fn append_to(self, out: &mut Vec<Element>)
        ensures
            element_views(final(out)@) == element_views(old(out)@) + self@,
    {
        match self {
            Elements::Empty => {
                assert(element_views(out@) + Seq::<SpecElement>::empty() =~= element_views(out@));
            },
            Elements::Single(element) => {
                out.push(element);
                assert(element_views(out@) =~= element_views(old(out)@) + seq![element@]);
            },
            Elements::Multiple(mut elements) => {
                let ghost added = elements@;
                out.append(&mut elements);
                proof {
                    lemma_views_concat(old(out)@, added);
                }
            },
        }
    }
}

/// What a rule gives when it matches.
#[derive(Debug, PartialEq, Eq)]
pub struct ParseSuccess<T> {
    /// What was parsed.
    pub item: T,
    /// The warnings of rules that were tried and gave up along the way.
    pub exceptions: Vec<ParseWarning>,
    /// Whether the item may stand inside a paragraph.
    pub paragraph_safe: bool,
}

/// The mathematical value of a [`ParseSuccess`].
pub struct SpecSuccess<T> {
    pub item: T,
    pub exceptions: Seq<ParseWarning>,
    pub paragraph_safe: bool,
}

/// What a rule leaves behind: its result, and the position of the parser
/// after it.
pub struct Outcome<T> {
    pub result: Result<SpecSuccess<T>, ParseWarning>,
    pub pos: int,
}

impl ParseSuccess<Elements> {
    /// The value of a success that holds elements.
    pub open spec fn elements_view(&self) -> SpecSuccess<Seq<SpecElement>> {
        SpecSuccess {
            item: self.item@,
            exceptions: self.exceptions@,
            paragraph_safe: self.paragraph_safe,
        }
    }
}

impl ParseSuccess<String> {
    /// The value of a success that holds text.
    pub open spec fn text_view(&self) -> SpecSuccess<Seq<char>> {
        SpecSuccess {
            item: self.item@,
            exceptions: self.exceptions@,
            paragraph_safe: self.paragraph_safe,
        }
    }
}

/// The value of the result of a rule that gives elements.
pub open spec fn elements_result(
    result: Result<ParseSuccess<Elements>, ParseWarning>,
) -> Result<SpecSuccess<Seq<SpecElement>>, ParseWarning> {
    match result {
        Ok(success) => Ok(success.elements_view()),
        Err(warning) => Err(warning),
    }
}

/// The value of the result of a collection of elements.
pub open spec fn collected_result(
    result: Result<ParseSuccess<(Vec<Element>, Token)>, ParseWarning>,
) -> Result<SpecSuccess<(Seq<SpecElement>, Token)>, ParseWarning> {
    match result {
        Ok(success) => Ok(
            SpecSuccess {
                item: (element_views(success.item.0@), success.item.1),
                exceptions: success.exceptions@,
                paragraph_safe: success.paragraph_safe,
            },
        ),
        Err(warning) => Err(warning),
    }
}

/// The value of the result of a collection of text.
pub open spec fn collected_text_result(
    result: Result<ParseSuccess<(String, Token)>, ParseWarning>,
) -> Result<SpecSuccess<(Seq<char>, Token)>, ParseWarning> {
    match result {
        Ok(success) => Ok(
            SpecSuccess {
                item: (success.item.0@, success.item.1),
                exceptions: success.exceptions@,
                paragraph_safe: success.paragraph_safe,
            },
        ),
        Err(warning) => Err(warning),
    }
}

/// The value of the result of a rule that gives text.
pub open spec fn text_result(result: Result<ParseSuccess<String>, ParseWarning>) -> Result<
    SpecSuccess<Seq<char>>,
    ParseWarning,
> {
    match result {
        Ok(success) => Ok(success.text_view()),
        Err(warning) => Err(warning),
    }
}

} // verus!
