//! The rule for blocks: `[[name arguments]] body [[/name]]`.

use crate::parsing::collect::collect_text;
use crate::parsing::grammar::{
    collect_elements, collect_text as spec_collect_text, elements_ok, Source,
};
use crate::parsing::parser::{
    fail_at, kind_at, AcceptsPartial, ParseCondition, Parser,
};
use crate::parsing::result::{
    elements_result, Elements, Outcome, ParseSuccess, ParseWarning, ParseWarningKind, Rule,
    SpecSuccess,
};
use crate::parsing::token::{ExtractedToken, Token};
use crate::text::{ascii_lowercase, lowercase, str_eq};
use crate::tree::attribute::{upsert, AttributeMap, SpecAttributes};
use crate::tree::container::ContainerType;
use crate::tree::element::{
    element_views, Element, PartialElement, SpecElement, SpecPartialElement,
};
use crate::tree::valid::{all_partial_free, all_valid, partial_at_top_only};
use vstd::prelude::*;

verus! {

/// The kind of a block.
#[derive(Debug, Clone, Copy, PartialEq, Eq, Structural)]
pub enum BlockKind {
    /// A block that wraps its body in a container.
    Container(ContainerType),
    /// A ruby block, which finishes the ruby text in its body.
    Ruby,
    /// The annotation of a ruby block.
    RubyText,
}

/// The names of the blocks, in lower case, each with the kind it names.
pub open spec fn block_names() -> Seq<(Seq<char>, BlockKind)> {
    seq![
        ("b"@, BlockKind::Container(ContainerType::Bold)),
        ("bold"@, BlockKind::Container(ContainerType::Bold)),
        ("strong"@, BlockKind::Container(ContainerType::Bold)),
        ("i"@, BlockKind::Container(ContainerType::Italics)),
        ("italics"@, BlockKind::Container(ContainerType::Italics)),
        ("em"@, BlockKind::Container(ContainerType::Italics)),
        ("emphasis"@, BlockKind::Container(ContainerType::Italics)),
        ("u"@, BlockKind::Container(ContainerType::Underline)),
        ("underline"@, BlockKind::Container(ContainerType::Underline)),
        ("s"@, BlockKind::Container(ContainerType::Strikethrough)),
        ("strikethrough"@, BlockKind::Container(ContainerType::Strikethrough)),
        ("sup"@, BlockKind::Container(ContainerType::Superscript)),
        ("super"@, BlockKind::Container(ContainerType::Superscript)),
        ("superscript"@, BlockKind::Container(ContainerType::Superscript)),
        ("sub"@, BlockKind::Container(ContainerType::Subscript)),
        ("subscript"@, BlockKind::Container(ContainerType::Subscript)),
        ("tt"@, BlockKind::Container(ContainerType::Monospace)),
        ("mono"@, BlockKind::Container(ContainerType::Monospace)),
        ("monospace"@, BlockKind::Container(ContainerType::Monospace)),
        ("mark"@, BlockKind::Container(ContainerType::Mark)),
        ("highlight"@, BlockKind::Container(ContainerType::Mark)),
        ("span"@, BlockKind::Container(ContainerType::Span)),
        ("ins"@, BlockKind::Container(ContainerType::Insertion)),
        ("insertion"@, BlockKind::Container(ContainerType::Insertion)),
        ("del"@, BlockKind::Container(ContainerType::Deletion)),
        ("deletion"@, BlockKind::Container(ContainerType::Deletion)),
        ("hidden"@, BlockKind::Container(ContainerType::Hidden)),
        ("invisible"@, BlockKind::Container(ContainerType::Invisible)),
        ("ruby"@, BlockKind::Ruby),
        ("rubytext"@, BlockKind::RubyText),
        ("rt"@, BlockKind::RubyText),
    ]
}

/// Whether entry `i` of the block names is the first for `name`.
pub open spec fn is_first_name(name: Seq<char>, i: int) -> bool {
    &&& 0 <= i < block_names().len()
    &&& block_names()[i].0 == name
    &&& forall|j: int| 0 <= j < i ==> (#[trigger] block_names()[j]).0 != name
}

/// The kind of the block that `name` names, whatever the case of its letters.
pub open spec fn block_kind(name: Seq<char>) -> Option<BlockKind> {
    if exists|i: int| is_first_name(ascii_lowercase(name), i) {
        Some(block_names()[choose|i: int| is_first_name(ascii_lowercase(name), i)].1)
    } else {
        None
    }
}

impl BlockKind {
    /// Whether a newline may follow the head of the block.
    pub open spec fn spec_accepts_newlines(self) -> bool {
        self == BlockKind::Ruby || self == BlockKind::RubyText
    }

    /// Whether a newline may follow the head of the block.
    pub fn accepts_newlines(self) -> (r: bool)
        ensures
            r == self.spec_accepts_newlines(),
    {
        match self {
            BlockKind::Ruby | BlockKind::RubyText => true,
            _ => false,
        }
    }

    /// Whether the block may be opened by `[[*`.
    pub open spec fn spec_accepts_star(self) -> bool {
        false
    }

    /// Whether the block may be opened by `[[*`.
    pub fn accepts_star(self) -> (r: bool)
        ensures
            r == self.spec_accepts_star(),
    {
        false
    }

    /// Whether the name of the block may be followed by `_`.
    pub open spec fn spec_accepts_score(self) -> bool {
        false
    }

    /// Whether the name of the block may be followed by `_`.
    pub fn accepts_score(self) -> (r: bool)
        ensures
            r == self.spec_accepts_score(),
    {
        false
    }

    /// Whether the container of a block of this kind is well formed.
    pub open spec fn valid(self) -> bool {
        match self {
            BlockKind::Container(container_type) => container_type.valid(),
            _ => true,
        }
    }
}

/// The kind of the block that `name` names, whatever the case of its letters.
pub fn get_block_kind(name: &str) -> (r: Option<BlockKind>)
    ensures
        r == block_kind(name@),
        r matches Some(kind) ==> kind.valid(),
{
    let folded = lowercase(name);
    let names = [
        ("b", BlockKind::Container(ContainerType::Bold)),
        ("bold", BlockKind::Container(ContainerType::Bold)),
        ("strong", BlockKind::Container(ContainerType::Bold)),
        ("i", BlockKind::Container(ContainerType::Italics)),
        ("italics", BlockKind::Container(ContainerType::Italics)),
        ("em", BlockKind::Container(ContainerType::Italics)),
        ("emphasis", BlockKind::Container(ContainerType::Italics)),
        ("u", BlockKind::Container(ContainerType::Underline)),
        ("underline", BlockKind::Container(ContainerType::Underline)),
        ("s", BlockKind::Container(ContainerType::Strikethrough)),
        ("strikethrough", BlockKind::Container(ContainerType::Strikethrough)),
        ("sup", BlockKind::Container(ContainerType::Superscript)),
        ("super", BlockKind::Container(ContainerType::Superscript)),
        ("superscript", BlockKind::Container(ContainerType::Superscript)),
        ("sub", BlockKind::Container(ContainerType::Subscript)),
        ("subscript", BlockKind::Container(ContainerType::Subscript)),
        ("tt", BlockKind::Container(ContainerType::Monospace)),
        ("mono", BlockKind::Container(ContainerType::Monospace)),
        ("monospace", BlockKind::Container(ContainerType::Monospace)),
        ("mark", BlockKind::Container(ContainerType::Mark)),
        ("highlight", BlockKind::Container(ContainerType::Mark)),
        ("span", BlockKind::Container(ContainerType::Span)),
        ("ins", BlockKind::Container(ContainerType::Insertion)),
        ("insertion", BlockKind::Container(ContainerType::Insertion)),
        ("del", BlockKind::Container(ContainerType::Deletion)),
        ("deletion", BlockKind::Container(ContainerType::Deletion)),
        ("hidden", BlockKind::Container(ContainerType::Hidden)),
        ("invisible", BlockKind::Container(ContainerType::Invisible)),
        ("ruby", BlockKind::Ruby),
        ("rubytext", BlockKind::RubyText),
        ("rt", BlockKind::RubyText),
    ];
    assert(Seq::new(names@.len(), |i: int| (names@[i].0@, names@[i].1)) =~= block_names());
    let mut i: usize = 0;
    while i < names.len()
        invariant
            i <= names.len(),
            folded@ == ascii_lowercase(name@),
            names@.len() == block_names().len(),
            forall|j: int|
                0 <= j < names@.len() ==> (#[trigger] names@[j]).0@ == block_names()[j].0
                    && names@[j].1 == block_names()[j].1 && names@[j].1.valid(),
            forall|j: int| 0 <= j < i ==> (#[trigger] block_names()[j]).0 != folded@,
        decreases names.len() - i,
    {
        if str_eq(names[i].0, folded.as_str()) {
            proof {
                assert(is_first_name(folded@, i as int));
                assert forall|k: int| is_first_name(folded@, k) implies k == i by {}
            }
            return Some(names[i].1);
        }
        i += 1;
    }
    None
}

/// The position after the spaces, if any, at `pos`.
pub open spec fn skip_space(tokens: Seq<ExtractedToken>, pos: int) -> int {
    if kind_at(tokens, pos) == Some(Token::Whitespace) {
        pos + 1
    } else {
        pos
    }
}

/// The number of tokens of the end tag of a block of kind `kind` that starts
/// at `pos`, if one starts there: `[[/`, the name of the block between
/// optional spaces, and `]]`.
pub open spec fn end_tag_len(tokens: Seq<ExtractedToken>, pos: int, kind: BlockKind) -> Option<int> {
    let name = skip_space(tokens, pos + 1);
    let close = skip_space(tokens, name + 1);
    if pos >= 0 && kind_at(tokens, pos) == Some(Token::LeftBlockEnd) && kind_at(tokens, name)
        == Some(Token::Identifier) && block_kind(tokens[name].slice@) == Some(kind) && kind_at(
        tokens,
        close,
    ) == Some(Token::RightBlock) {
        Some(close + 1 - pos)
    } else {
        None
    }
}

/// The kind of token `pos`, if there is such a token.
fn token_kind(tokens: &Vec<ExtractedToken>, pos: usize) -> (r: Option<Token>)
    ensures
        r == kind_at(tokens@, pos as int),
{
    if pos < tokens.len() {
        Some(tokens[pos].token)
    } else {
        None
    }
}

/// The position after the spaces, if any, at `pos`.
fn after_space(tokens: &Vec<ExtractedToken>, pos: usize) -> (r: usize)
    requires
        pos <= tokens@.len(),
    ensures
        r == skip_space(tokens@, pos as int),
        r <= tokens@.len(),
{
    let count = tokens.len();
    match token_kind(tokens, pos) {
        Some(Token::Whitespace) => pos + 1,
        _ => pos,
    }
}

/// The number of tokens of the end tag of a block of kind `kind` that starts
/// at `pos`, if one starts there.
pub fn end_tag_length(tokens: &Vec<ExtractedToken>, pos: usize, kind: BlockKind) -> (r: Option<
    usize,
>)
    requires
        pos < tokens@.len(),
    ensures
        match r {
            Some(length) => end_tag_len(tokens@, pos as int, kind) == Some(length as int) && pos
                + length <= tokens@.len() && length >= 3 && tokens@[pos + length - 1].token
                == Token::RightBlock,
            None => end_tag_len(tokens@, pos as int, kind) is None,
        },
{
    let count = tokens.len();
    if tokens[pos].token != Token::LeftBlockEnd {
        return None;
    }
    let name = after_space(tokens, pos + 1);
    if token_kind(tokens, name) != Some(Token::Identifier) {
        return None;
    }
    if get_block_kind(tokens[name].slice.as_str()) != Some(kind) {
        return None;
    }
    let close = after_space(tokens, name + 1);
    if token_kind(tokens, close) != Some(Token::RightBlock) {
        return None;
    }
    Some(close + 1 - pos)
}

/// What ends the value of an argument: the closing quote.
pub open spec fn value_close() -> Seq<ParseCondition> {
    seq![ParseCondition::CurrentToken(Token::Quote)]
}

/// What the value of an argument cannot hold: the end of the line.
pub open spec fn value_invalid() -> Seq<ParseCondition> {
    seq![
        ParseCondition::CurrentToken(Token::LineBreak),
        ParseCondition::CurrentToken(Token::ParagraphBreak),
    ]
}

/// The arguments in the head of a block from `pos` on, added to `arguments`:
/// pairs of the form `key="value"` between spaces, up to the closing `]]`,
/// which is stepped over. Keys are held in lower case; of two values for one
/// key the later stays.
pub open spec fn head_arguments(
    src: Source,
    pos: int,
    rule: Rule,
    arguments: SpecAttributes,
) -> Outcome<SpecAttributes>
    decreases src.tokens.len() - pos,
{
    let key = skip_space(src.tokens, pos);
    if pos < 0 || !src.has(key) {
        fail_at(src.tokens, pos, rule, ParseWarningKind::EndOfInput)
    } else if src.tokens[key].token == Token::RightBlock {
        Outcome {
            result: Ok(SpecSuccess { item: arguments, exceptions: Seq::empty(), paragraph_safe: true }),
            pos: key + 1,
        }
    } else if src.tokens[key].token == Token::Identifier && kind_at(src.tokens, key + 1) == Some(
        Token::Equals,
    ) && kind_at(src.tokens, key + 2) == Some(Token::Quote) && src.has(key + 3) {
        let value = spec_collect_text(
            src,
            key + 3,
            rule,
            value_close(),
            value_invalid(),
            Some(ParseWarningKind::BlockMalformedArguments),
            Seq::empty(),
        );
        match value.result {
            Err(warning) => Outcome { result: Err(warning), pos: value.pos },
            Ok(found) => if pos < value.pos && src.has(value.pos) {
                head_arguments(
                    src,
                    value.pos,
                    rule,
                    upsert(arguments, ascii_lowercase(src.tokens[key].slice@), found.item.0),
                )
            } else {
                fail_at(src.tokens, key, rule, ParseWarningKind::BlockMalformedArguments)
            },
        }
    } else {
        fail_at(src.tokens, key, rule, ParseWarningKind::BlockMalformedArguments)
    }
}

/// The head of a block from `pos` on: its arguments where the head is still
/// open, nothing where it has been closed already.
pub open spec fn head_map(src: Source, pos: int, rule: Rule, in_head: bool) -> Outcome<
    SpecAttributes,
> {
    if in_head {
        head_arguments(src, pos, rule, Seq::empty())
    } else {
        Outcome {
            result: Ok(
                SpecSuccess { item: Seq::empty(), exceptions: Seq::empty(), paragraph_safe: true },
            ),
            pos,
        }
    }
}

/// What ends the body of a block: its end tag.
pub open spec fn body_close(kind: BlockKind) -> Seq<ParseCondition> {
    seq![ParseCondition::BlockEnd(kind)]
}

/// The body of a block of kind `kind` from `pos` on: elements up to the end
/// tag of the block, which is stepped over. Where the block takes newlines,
/// one newline behind the head is left out.
pub open spec fn block_body(
    src: Source,
    pos: int,
    rule: Rule,
    accepts: AcceptsPartial,
    kind: BlockKind,
) -> Outcome<(Seq<SpecElement>, Token)>
    decreases src.tokens.len() - pos, 21int, 0int,
{
    let start = if kind.spec_accepts_newlines() && kind_at(src.tokens, pos) == Some(
        Token::LineBreak,
    ) && src.has(pos + 1) {
        pos + 1
    } else {
        pos
    };
    let body = collect_elements(
        src,
        start,
        rule,
        accepts,
        body_close(kind),
        Seq::empty(),
        Some(ParseWarningKind::BlockMissingClose),
        Seq::empty(),
        Seq::empty(),
        true,
    );
    match body.result {
        Err(warning) => body,
        Ok(success) => match end_tag_len(src.tokens, body.pos - 1, kind) {
            Some(length) => Outcome { result: body.result, pos: body.pos - 1 + length },
            None => fail_at(src.tokens, body.pos, rule, ParseWarningKind::BlockMissingClose),
        },
    }
}

/// The elements of a ruby block with the ruby text among them finished: each
/// partial ruby text becomes a container.
pub open spec fn finish_ruby(elements: Seq<SpecElement>) -> Seq<SpecElement> {
    Seq::new(
        elements.len(),
        |i: int|
            match elements[i] {
                SpecElement::Partial(SpecPartialElement::RubyText { attributes, elements }) =>
                    SpecElement::Container { ctype: ContainerType::RubyText, elements, attributes },
                other => other,
            },
    )
}

/// What a block of kind `kind` makes of its arguments and its body.
pub open spec fn block_element(
    kind: BlockKind,
    arguments: SpecAttributes,
    body: SpecSuccess<(Seq<SpecElement>, Token)>,
) -> SpecSuccess<Seq<SpecElement>> {
    match kind {
        BlockKind::Container(ctype) => SpecSuccess {
            item: seq![
                SpecElement::Container { ctype, elements: body.item.0, attributes: arguments },
            ],
            exceptions: body.exceptions,
            paragraph_safe: ctype.spec_paragraph_safe(),
        },
        BlockKind::Ruby => SpecSuccess {
            item: seq![
                SpecElement::Container {
                    ctype: ContainerType::Ruby,
                    elements: finish_ruby(body.item.0),
                    attributes: arguments,
                },
            ],
            exceptions: body.exceptions,
            paragraph_safe: body.paragraph_safe,
        },
        BlockKind::RubyText => SpecSuccess {
            item: seq![
                SpecElement::Partial(
                    SpecPartialElement::RubyText { attributes: arguments, elements: body.item.0 },
                ),
            ],
            exceptions: body.exceptions,
            paragraph_safe: body.paragraph_safe,
        },
    }
}

/// The partial elements that are welcome in the body of a block.
pub open spec fn body_accepts(kind: BlockKind) -> AcceptsPartial {
    if kind == BlockKind::Ruby {
        AcceptsPartial::Ruby
    } else {
        AcceptsPartial::Nothing
    }
}

/// A block of kind `kind` whose head is open at `pos`, or closed where
/// `in_head` is false: its arguments, its body and its end tag. Ruby text is
/// a block only where a ruby block welcomes it.
pub open spec fn block_of(
    src: Source,
    pos: int,
    rule: Rule,
    accepts: AcceptsPartial,
    kind: BlockKind,
    in_head: bool,
) -> Outcome<Seq<SpecElement>>
    decreases src.tokens.len() - pos, 22int, 0int,
{
    if kind == BlockKind::RubyText && accepts != AcceptsPartial::Ruby {
        fail_at(src.tokens, pos, rule, ParseWarningKind::BlockNotAccepted)
    } else {
        let head = head_map(src, pos, rule, in_head);
        match head.result {
            Err(warning) => Outcome { result: Err(warning), pos: head.pos },
            Ok(arguments) => if pos <= head.pos && src.has(head.pos) {
                let body = block_body(src, head.pos, rule, body_accepts(kind), kind);
                match body.result {
                    Err(warning) => Outcome { result: Err(warning), pos: body.pos },
                    Ok(success) => Outcome {
                        result: Ok(block_element(kind, arguments.item, success)),
                        pos: body.pos,
                    },
                }
            } else {
                fail_at(src.tokens, pos, rule, ParseWarningKind::EndOfInput)
            },
        }
    }
}

/// Whether token `pos` is the `_` that may follow the name of a block.
pub open spec fn is_score(tokens: Seq<ExtractedToken>, pos: int) -> bool {
    kind_at(tokens, pos) == Some(Token::Other) && tokens[pos].slice@ == "_"@
}

/// A block: `[[` or `[[*` at `pos`, the name of the block, which `_` may
/// follow, arguments, `]]`, the body and the end tag.
pub open spec fn block(src: Source, pos: int, rule: Rule, accepts: AcceptsPartial) -> Outcome<
    Seq<SpecElement>,
>
    decreases src.tokens.len() - pos, 16int, 0int,
{
    let name = skip_space(src.tokens, pos + 1);
    if !src.has_next(pos) || !(src.tokens[pos].token == Token::LeftBlock || src.tokens[pos].token
        == Token::LeftBlockStar) {
        fail_at(src.tokens, pos, rule, ParseWarningKind::RuleFailed)
    } else if !src.has_next(name) || src.tokens[name].token != Token::Identifier {
        fail_at(src.tokens, name, rule, ParseWarningKind::BlockExpectedName)
    } else {
        let flag_star = src.tokens[pos].token == Token::LeftBlockStar;
        let flag_score = is_score(src.tokens, name + 1) && src.has(name + 2);
        let head = if flag_score {
            name + 2
        } else {
            name + 1
        };
        match block_kind(src.tokens[name].slice@) {
            None => fail_at(src.tokens, head, rule, ParseWarningKind::NoSuchBlock),
            Some(kind) => if flag_star && !kind.spec_accepts_star() {
                fail_at(src.tokens, head, rule, ParseWarningKind::BlockDisallowsStar)
            } else if flag_score && !kind.spec_accepts_score() {
                fail_at(src.tokens, head, rule, ParseWarningKind::BlockDisallowsScore)
            } else if !src.has(head) {
                fail_at(src.tokens, head, rule, ParseWarningKind::EndOfInput)
            } else {
                block_of(src, head, rule, accepts, kind, true)
            },
        }
    }
}

/// The value of the result of parsing the head of a block.
pub open spec fn arguments_result(result: Result<AttributeMap, ParseWarning>) -> Result<
    SpecSuccess<SpecAttributes>,
    ParseWarning,
> {
    match result {
        Ok(arguments) => Ok(
            SpecSuccess { item: arguments@, exceptions: Seq::empty(), paragraph_safe: true },
        ),
        Err(warning) => Err(warning),
    }
}

/// Parses the head of a block from the cursor on, up to its closing `]]`.
/// Where `in_head` is false the head has been closed already and there are
/// no arguments.
#[verifier::rlimit(40)]
pub fn get_head_map(parser: &mut Parser, in_head: bool) -> (r: Result<AttributeMap, ParseWarning>)
    requires
        old(parser).wf(),
    ensures
        final(parser).wf(),
        final(parser).moved_from(old(parser)),
        final(parser).pos >= old(parser).pos,
        (Outcome { result: arguments_result(r), pos: final(parser).pos as int }) == head_map(
            old(parser).source(),
            old(parser).pos as int,
            old(parser).rule,
            in_head,
        ),
{
    let mut arguments = AttributeMap::new();
    if !in_head {
        return Ok(arguments);
    }
    let ghost src = parser.source();
    let rule = parser.rule();
    loop
        invariant
            parser.wf(),
            parser.moved_from(old(parser)),
            parser.pos >= old(parser).pos,
            parser.rule == rule,
            in_head,
            src == parser.source(),
            head_arguments(src, parser.pos as int, rule, arguments@) == head_arguments(
                src,
                old(parser).pos as int,
                rule,
                Seq::empty(),
            ),
        decreases parser.remaining(),
    {
        if parser.current().token == Token::Whitespace {
            let _ = parser.step();
        }
        let current = parser.current();
        match parser.next_three_tokens() {
            (Token::RightBlock, _, _) => {
                let _ = parser.step();
                return Ok(arguments);
            },
            (Token::Identifier, Some(Token::Equals), Some(Token::Quote)) => {
                let _ = parser.step_n(3);
                let close_conditions = [ParseCondition::current(Token::Quote)];
                let invalid_conditions = [
                    ParseCondition::current(Token::LineBreak),
                    ParseCondition::current(Token::ParagraphBreak),
                ];
                assert(close_conditions@ =~= value_close());
                assert(invalid_conditions@ =~= value_invalid());
                match collect_text(
                    parser,
                    rule,
                    close_conditions.as_slice(),
                    invalid_conditions.as_slice(),
                    Some(ParseWarningKind::BlockMalformedArguments),
                ) {
                    Ok(value) => {
                        arguments.insert(current.slice.as_str(), value);
                    },
                    Err(warning) => {
                        return Err(warning);
                    },
                }
            },
            _ => {
                return Err(parser.make_warn(ParseWarningKind::BlockMalformedArguments));
            },
        }
    }
}

/// Parses the body of a block of kind `kind` from the cursor on, up to and
/// with its end tag.
#[verifier::rlimit(40)]
pub fn get_body_elements(parser: &mut Parser, kind: BlockKind) -> (r: Result<
    ParseSuccess<(Vec<Element>, Token)>,
    ParseWarning,
>)
    requires
        old(parser).wf(),
    ensures
        final(parser).wf(),
        final(parser).moved_from(old(parser)),
        final(parser).pos >= old(parser).pos,
        (Outcome {
            result: crate::parsing::result::collected_result(r),
            pos: final(parser).pos as int,
        }) == block_body(
            old(parser).source(),
            old(parser).pos as int,
            old(parser).rule,
            old(parser).accepts_partial,
            kind,
        ),
        r matches Ok(success) ==> elements_ok(
            element_views(success.item.0@),
            old(parser).accepts_partial,
        ),
    decreases old(parser).remaining(), 21int, 0int,
{
    let rule = parser.rule();
    if kind.accepts_newlines() && parser.current().token == Token::LineBreak {
        let _ = parser.step();
    }
    let close_conditions = [ParseCondition::BlockEnd(kind)];
    let invalid_conditions: [ParseCondition; 0] = [];
    assert(close_conditions@ =~= body_close(kind));
    assert(invalid_conditions@ =~= Seq::<ParseCondition>::empty());
    let collected = crate::parsing::collect::collect_consume_keep(
        parser,
        rule,
        close_conditions.as_slice(),
        invalid_conditions.as_slice(),
        Some(ParseWarningKind::BlockMissingClose),
    );
    match collected {
        Ok(success) => {
            if parser.pos == 0 {
                return Err(parser.make_warn(ParseWarningKind::BlockMissingClose));
            }
            match end_tag_length(parser.tokens, parser.pos - 1, kind) {
                Some(length) => {
                    assert(parser.tokens@[parser.pos - 1 + length - 1].token != Token::InputEnd);
                    parser.pos = parser.pos - 1 + length;
                    Ok(success)
                },
                None => Err(parser.make_warn(ParseWarningKind::BlockMissingClose)),
            }
        },
        Err(warning) => Err(warning),
    }
}

/// Turns each partial ruby text among `elements` into a container.
pub fn resolve_ruby(elements: Vec<Element>) -> (r: Vec<Element>)
    ensures
        element_views(r@) == finish_ruby(element_views(elements@)),
{
    let ghost all = elements@;
    let mut rest = elements;
    let mut reversed: Vec<Element> = Vec::new();
    while rest.len() > 0
        invariant
            reversed@.len() + rest@.len() == all.len(),
            forall|j: int| 0 <= j < rest@.len() ==> rest@[j] == all[j],
            forall|j: int| 0 <= j < reversed@.len() ==> reversed@[j] == all[all.len() - 1 - j],
        decreases rest@.len(),
    {
        let element = rest.pop().unwrap();
        reversed.push(element);
    }
    let mut out: Vec<Element> = Vec::new();
    while reversed.len() > 0
        invariant
            reversed@.len() + out@.len() == all.len(),
            forall|j: int| 0 <= j < reversed@.len() ==> reversed@[j] == all[all.len() - 1 - j],
            forall|j: int|
                0 <= j < out@.len() ==> (#[trigger] out@[j])@ == finish_ruby(element_views(all))[j],
        decreases reversed@.len(),
    {
        let ghost index = out@.len() as int;
        let element = reversed.pop().unwrap();
        assert(element == all[index]);
        assert(element@ == element_views(all)[index]);
        let resolved = match element {
            Element::Partial(PartialElement::RubyText { attributes, elements }) => {
                Element::Container { ctype: ContainerType::RubyText, elements, attributes }
            },
            other => other,
        };
        out.push(resolved);
    }
    assert(element_views(out@) =~= finish_ruby(element_views(all)));
    out
}

/// The elements of a ruby block are finished once its ruby text is.
pub proof fn lemma_finish_ruby(elements: Seq<SpecElement>)
    requires
        elements_ok(elements, AcceptsPartial::Ruby),
    ensures
        all_valid(finish_ruby(elements)),
        all_partial_free(finish_ruby(elements)),
{
    assert forall|i: int| 0 <= i < elements.len() implies (#[trigger] finish_ruby(
        elements,
    )[i]).valid() && finish_ruby(elements)[i].partial_free() by {
        assert(elements[i].valid());
        assert(elements[i].partial_at_top_only());
    }
}

/// Parses a block that wraps its body in a container of kind
/// `container_type`; the cursor is behind the name of the block.
#[verifier::rlimit(40)]
pub fn parse_fn(
    parser: &mut Parser,
    container_type: ContainerType,
    name: &str,
    special: bool,
    in_head: bool,
) -> (r: Result<ParseSuccess<Elements>, ParseWarning>)
    requires
        old(parser).wf(),
        !special,
        container_type.valid(),
        block_kind(name@) == Some(BlockKind::Container(container_type)),
    ensures
        final(parser).wf(),
        final(parser).moved_from(old(parser)),
        final(parser).pos >= old(parser).pos,
        r matches Ok(success) ==> success.item.one_at_most(),
        (Outcome { result: elements_result(r), pos: final(parser).pos as int }) == block_of(
            old(parser).source(),
            old(parser).pos as int,
            old(parser).rule,
            old(parser).accepts_partial,
            BlockKind::Container(container_type),
            in_head,
        ),
        r matches Ok(success) ==> elements_ok(success.item@, old(parser).accepts_partial),
    decreases old(parser).remaining(), 22int, 0int,
{
    let saved = parser.accepts_partial();
    let arguments = match get_head_map(parser, in_head) {
        Ok(arguments) => arguments,
        Err(warning) => {
            return Err(warning);
        },
    };

    parser.set_accepts_partial(AcceptsPartial::Nothing);
    let body = get_body_elements(parser, BlockKind::Container(container_type));
    parser.set_accepts_partial(saved);
    match body {
        Ok(success) => {
            let element = Element::Container {
                ctype: container_type,
                elements: success.item.0,
                attributes: arguments,
            };
            proof {
                assert(seq![element@][0] == element@);
                assert(element@.valid());
                assert(element@.partial_free());
            }
            Ok(
                ParseSuccess {
                    item: Elements::Single(element),
                    exceptions: success.exceptions,
                    paragraph_safe: container_type.paragraph_safe(),
                },
            )
        },
        Err(warning) => Err(warning),
    }
}

/// Parses a ruby block; the cursor is behind the name of the block.
#[verifier::rlimit(40)]
pub fn parse_block(
    parser: &mut Parser,
    name: &str,
    flag_star: bool,
    flag_score: bool,
    in_head: bool,
) -> (r: Result<ParseSuccess<Elements>, ParseWarning>)
    requires
        old(parser).wf(),
        !flag_star,
        !flag_score,
        block_kind(name@) == Some(BlockKind::Ruby),
    ensures
        final(parser).wf(),
        final(parser).moved_from(old(parser)),
        final(parser).pos >= old(parser).pos,
        r matches Ok(success) ==> success.item.one_at_most(),
        (Outcome { result: elements_result(r), pos: final(parser).pos as int }) == block_of(
            old(parser).source(),
            old(parser).pos as int,
            old(parser).rule,
            old(parser).accepts_partial,
            BlockKind::Ruby,
            in_head,
        ),
        r matches Ok(success) ==> elements_ok(success.item@, old(parser).accepts_partial),
    decreases old(parser).remaining(), 22int, 0int,
{
    let saved = parser.accepts_partial();
    let arguments = match get_head_map(parser, in_head) {
        Ok(arguments) => arguments,
        Err(warning) => {
            return Err(warning);
        },
    };
    parser.set_accepts_partial(AcceptsPartial::Ruby);
    let body = get_body_elements(parser, BlockKind::Ruby);
    parser.set_accepts_partial(saved);
    let (elements, exceptions, paragraph_safe) = match body {
        Ok(success) => (success.item.0, success.exceptions, success.paragraph_safe),
        Err(warning) => {
            return Err(warning);
        },
    };

    proof {
        lemma_finish_ruby(element_views(elements@));
    }
    let elements = resolve_ruby(elements);

    let element = Element::Container { ctype: ContainerType::Ruby, elements, attributes: arguments };
    proof {
        assert(seq![element@][0] == element@);
        assert(element@.valid());
        assert(element@.partial_free());
    }
    Ok(ParseSuccess { item: Elements::Single(element), exceptions, paragraph_safe })
}

/// Parses the annotation of a ruby block; the cursor is behind the name of
/// the block. The annotation is handed on unfinished, for the ruby block
/// around it to finish.
#[verifier::rlimit(40)]
pub fn parse_text(
    parser: &mut Parser,
    name: &str,
    flag_star: bool,
    flag_score: bool,
    in_head: bool,
) -> (r: Result<ParseSuccess<Elements>, ParseWarning>)
    requires
        old(parser).wf(),
        !flag_star,
        !flag_score,
        block_kind(name@) == Some(BlockKind::RubyText),
    ensures
        final(parser).wf(),
        final(parser).moved_from(old(parser)),
        final(parser).pos >= old(parser).pos,
        r matches Ok(success) ==> success.item.one_at_most(),
        (Outcome { result: elements_result(r), pos: final(parser).pos as int }) == block_of(
            old(parser).source(),
            old(parser).pos as int,
            old(parser).rule,
            old(parser).accepts_partial,
            BlockKind::RubyText,
            in_head,
        ),
        r matches Ok(success) ==> elements_ok(success.item@, old(parser).accepts_partial),
    decreases old(parser).remaining(), 22int, 0int,
{
    let saved = parser.accepts_partial();
    if saved != AcceptsPartial::Ruby {
        return Err(parser.make_warn(ParseWarningKind::BlockNotAccepted));
    }
    let arguments = match get_head_map(parser, in_head) {
        Ok(arguments) => arguments,
        Err(warning) => {
            return Err(warning);
        },
    };
    parser.set_accepts_partial(AcceptsPartial::Nothing);
    let body = get_body_elements(parser, BlockKind::RubyText);
    parser.set_accepts_partial(saved);
    match body {
        Ok(success) => {
            let element = Element::Partial(
                PartialElement::RubyText { elements: success.item.0, attributes: arguments },
            );
            proof {
                assert(seq![element@][0] == element@);
                assert(element@.valid());
                assert(element@.partial_at_top_only());
            }
            Ok(
                ParseSuccess {
                    item: Elements::Single(element),
                    exceptions: success.exceptions,
                    paragraph_safe: success.paragraph_safe,
                },
            )
        },
        Err(warning) => Err(warning),
    }
}

/// Parses a block; the cursor is at its opening `[[` or `[[*`.
#[verifier::rlimit(40)]
pub fn parse_any_block(parser: &mut Parser) -> (r: Result<ParseSuccess<Elements>, ParseWarning>)
    requires
        old(parser).wf(),
    ensures
        final(parser).wf(),
        final(parser).moved_from(old(parser)),
        final(parser).pos >= old(parser).pos,
        r matches Ok(success) ==> success.item.one_at_most(),
        (Outcome { result: elements_result(r), pos: final(parser).pos as int }) == block(
            old(parser).source(),
            old(parser).pos as int,
            old(parser).rule,
            old(parser).accepts_partial,
        ),
        r matches Ok(success) ==> elements_ok(success.item@, old(parser).accepts_partial),
    decreases old(parser).remaining(), 16int, 0int,
{
    let open = parser.current().token;
    if !(open == Token::LeftBlock || open == Token::LeftBlockStar) {
        return Err(parser.make_warn(ParseWarningKind::RuleFailed));
    }
    let flag_star = open == Token::LeftBlockStar;
    let _ = parser.step();
    if parser.current().token == Token::Whitespace {
        let _ = parser.step();
    }
    let current = parser.current();
    if current.token != Token::Identifier {
        return Err(parser.make_warn(ParseWarningKind::BlockExpectedName));
    }
    let name = current.slice.as_str();
    let _ = parser.step();
    let current = parser.current();
    let flag_score = current.token == Token::Other && str_eq(current.slice.as_str(), "_");
    if flag_score {
        let _ = parser.step();
    }
    let kind = match get_block_kind(name) {
        Some(kind) => kind,
        None => {
            return Err(parser.make_warn(ParseWarningKind::NoSuchBlock));
        },
    };
    if flag_star && !kind.accepts_star() {
        return Err(parser.make_warn(ParseWarningKind::BlockDisallowsStar));
    }
    if flag_score && !kind.accepts_score() {
        return Err(parser.make_warn(ParseWarningKind::BlockDisallowsScore));
    }
    match kind {
        BlockKind::Container(container_type) => parse_fn(
            parser,
            container_type,
            name,
            false,
            true,
        ),
        BlockKind::Ruby => parse_block(parser, name, false, false, true),
        BlockKind::RubyText => parse_text(parser, name, false, false, true),
    }
}

} // verus!
