//! What the parser makes of a sequence of tokens.
//!
//! Every function here says, for a position in the tokens, what a part of
//! the parser returns there and where it leaves the cursor. The parser
//! itself is proved to do exactly this.

use crate::parsing::depth::{spec_process_depths, SpecDepthEntry};
use crate::parsing::parser::{
    any_holds, fail_at, line_starts_at, succeed_at, warn_at, AcceptsPartial, ParseCondition,
};
use crate::parsing::result::{Outcome, ParseWarning, ParseWarningKind, Rule, SpecSuccess};
use crate::parsing::rule::block::block;
use crate::parsing::rule::definition_list::{
    key_close, key_invalid, newline_skipped, stripped, value_close,
};
use crate::parsing::rule::em_dash::em_dash;
use crate::parsing::rule::header::{header_close, heading_level};
use crate::parsing::rule::link_single::link_single;
use crate::parsing::rule::list::{
    build_list, kind_mismatch, list_close, list_invalid, list_type_of, open_kinds,
};
use crate::parsing::token::{ExtractedToken, Token};
use crate::settings::WikitextSettings;
use crate::tree::attribute::SpecAttributes;
use crate::tree::container::{ContainerType, ListType};
use crate::tree::element::{SpecDefinitionListItem, SpecElement};
use crate::tree::valid::{all_partial_free, all_valid, partial_at_top_only};
use vstd::prelude::*;

verus! {

/// What is parsed: the tokens, and the settings of the parse.
pub struct Source {
    pub tokens: Seq<ExtractedToken>,
    pub settings: WikitextSettings,
}

impl Source {
    /// Whether `pos` is the position of a token.
    pub open spec fn has(self, pos: int) -> bool {
        0 <= pos < self.tokens.len()
    }

    /// Whether `pos` is the position of a token other than the end of the
    /// input.
    pub open spec fn has_next(self, pos: int) -> bool {
        self.has(pos) && self.has(pos + 1)
    }
}

/// The rules that are tried at a token of the given kind, in order.
#[verifier::opaque]
pub open spec fn rules_for(token: Token) -> Seq<Rule> {
    match token {
        Token::InputStart => seq![Rule::List, Rule::Null],
        Token::LineBreak => seq![Rule::DefinitionListSkipNewline, Rule::List, Rule::LineBreak],
        Token::ParagraphBreak => seq![Rule::LineBreakParagraph],
        Token::DoubleDash => seq![Rule::Strikethrough, Rule::EmDash],
        Token::Bold => seq![Rule::Bold],
        Token::Italics => seq![Rule::Italics],
        Token::Underline => seq![Rule::Underline],
        Token::Superscript => seq![Rule::Superscript],
        Token::Subscript => seq![Rule::Subscript],
        Token::LeftMonospace => seq![Rule::Monospace],
        Token::Heading => seq![Rule::Header],
        Token::LeftBracket => seq![Rule::LinkSingle],
        Token::LeftBracketStar => seq![Rule::LinkSingleNewTab],
        Token::Colon => seq![Rule::DefinitionList],
        Token::LeftBlock => seq![Rule::Block],
        Token::LeftBlockStar => seq![Rule::BlockStar],
        _ => seq![Rule::Text],
    }
}

/// Whether collected elements may be handed on: they are well formed, partial
/// elements stand at the top only, and only where `accepts` welcomes them.
pub open spec fn elements_ok(elements: Seq<SpecElement>, accepts: AcceptsPartial) -> bool {
    &&& all_valid(elements)
    &&& partial_at_top_only(elements)
    &&& accepts == AcceptsPartial::Nothing ==> all_partial_free(elements)
}

/// Elements that may be handed on stay so when put in a row.
pub proof fn lemma_ok_concat(a: Seq<SpecElement>, b: Seq<SpecElement>, accepts: AcceptsPartial)
    requires
        elements_ok(a, accepts),
        elements_ok(b, accepts),
    ensures
        elements_ok(a + b, accepts),
{
    assert forall|i: int| 0 <= i < (a + b).len() implies (#[trigger] (a + b)[i]).valid() && (a
        + b)[i].partial_at_top_only() && (accepts == AcceptsPartial::Nothing ==> (a
        + b)[i].partial_free()) by {
        if i < a.len() {
            assert((a + b)[i] == a[i]);
        } else {
            assert((a + b)[i] == b[i - a.len()]);
        }
    }
}

/// The position after token `pos`, or `pos` itself at the end of the input.
pub open spec fn step_over(tokens: Seq<ExtractedToken>, pos: int) -> int {
    if tokens[pos].token == Token::InputEnd {
        pos
    } else {
        pos + 1
    }
}

/// The kind of warning that a collection gives where the caller names none.
pub open spec fn warn_kind_or(
    warn_kind: Option<ParseWarningKind>,
    default: ParseWarningKind,
) -> ParseWarningKind {
    match warn_kind {
        Some(kind) => kind,
        None => default,
    }
}

/// The container that a pair of sigils makes, and the sigil that closes it.
pub open spec fn styled_by(rule: Rule) -> Option<(ContainerType, Token)> {
    match rule {
        Rule::Bold => Some((ContainerType::Bold, Token::Bold)),
        Rule::Italics => Some((ContainerType::Italics, Token::Italics)),
        Rule::Underline => Some((ContainerType::Underline, Token::Underline)),
        Rule::Strikethrough => Some((ContainerType::Strikethrough, Token::DoubleDash)),
        Rule::Superscript => Some((ContainerType::Superscript, Token::Superscript)),
        Rule::Subscript => Some((ContainerType::Subscript, Token::Subscript)),
        Rule::Monospace => Some((ContainerType::Monospace, Token::RightMonospace)),
        _ => None,
    }
}

/// What ends a styled container: its closing sigil.
pub open spec fn styled_close(close: Token) -> Seq<ParseCondition> {
    seq![ParseCondition::CurrentToken(close)]
}

/// What makes a styled container fail: the end of the paragraph, or spaces
/// before the closing sigil.
pub open spec fn styled_invalid(close: Token) -> Seq<ParseCondition> {
    seq![
        ParseCondition::CurrentToken(Token::ParagraphBreak),
        ParseCondition::TokenPair(Token::Whitespace, close),
    ]
}

/// Collecting text: the slices of the tokens from `start` on are put in a
/// row until a condition of `close` holds, which ends the text and is stepped
/// over. A condition of `invalid`, or the end of the input, makes the
/// collection fail.
pub open spec fn collect_text(
    src: Source,
    pos: int,
    rule: Rule,
    close: Seq<ParseCondition>,
    invalid: Seq<ParseCondition>,
    warn_kind: Option<ParseWarningKind>,
    text: Seq<char>,
) -> Outcome<(Seq<char>, Token)>
    decreases src.tokens.len() - pos,
{
    if !src.has(pos) {
        fail_at(src.tokens, pos, rule, ParseWarningKind::EndOfInput)
    } else if any_holds(close, src.tokens, pos) {
        succeed_at((text, src.tokens[pos].token), true, step_over(src.tokens, pos))
    } else if any_holds(invalid, src.tokens, pos) {
        fail_at(src.tokens, pos, rule, warn_kind_or(warn_kind, ParseWarningKind::RuleFailed))
    } else if src.tokens[pos].token == Token::InputEnd {
        fail_at(src.tokens, pos, rule, warn_kind_or(warn_kind, ParseWarningKind::EndOfInput))
    } else {
        collect_text(
            src,
            pos + 1,
            rule,
            close,
            invalid,
            warn_kind,
            text + src.tokens[pos].slice@,
        )
    }
}

/// Collecting elements: elements are consumed from `pos` on until a condition
/// of `close` holds, which ends the collection and is stepped over. A
/// condition of `invalid`, or the end of the input, makes the collection
/// fail. The result holds the elements and the kind of the closing token.
pub open spec fn collect_elements(
    src: Source,
    pos: int,
    rule: Rule,
    accepts: AcceptsPartial,
    close: Seq<ParseCondition>,
    invalid: Seq<ParseCondition>,
    warn_kind: Option<ParseWarningKind>,
    elements: Seq<SpecElement>,
    exceptions: Seq<ParseWarning>,
    paragraph_safe: bool,
) -> Outcome<(Seq<SpecElement>, Token)>
    decreases src.tokens.len() - pos, 20int, 0int,
{
    if !src.has(pos) {
        fail_at(src.tokens, pos, rule, ParseWarningKind::EndOfInput)
    } else if any_holds(close, src.tokens, pos) {
        Outcome {
            result: Ok(
                SpecSuccess { item: (elements, src.tokens[pos].token), exceptions, paragraph_safe },
            ),
            pos: step_over(src.tokens, pos),
        }
    } else if any_holds(invalid, src.tokens, pos) {
        fail_at(src.tokens, pos, rule, warn_kind_or(warn_kind, ParseWarningKind::RuleFailed))
    } else if src.tokens[pos].token == Token::InputEnd {
        fail_at(src.tokens, pos, rule, warn_kind_or(warn_kind, ParseWarningKind::EndOfInput))
    } else {
        let out = consume(src, pos, accepts);
        match out.result {
            Ok(success) => if pos < out.pos && src.has(out.pos) {
                collect_elements(
                    src,
                    out.pos,
                    rule,
                    accepts,
                    close,
                    invalid,
                    warn_kind,
                    elements + success.item,
                    exceptions + success.exceptions,
                    paragraph_safe && success.paragraph_safe,
                )
            } else {
                fail_at(src.tokens, pos, rule, ParseWarningKind::RuleFailed)
            },
            Err(warning) => Outcome { result: Err(warning), pos: out.pos },
        }
    }
}

/// Consuming: the rules for the token at `pos` are tried in order, and the
/// first that matches gives the elements. Where none matches, the token
/// becomes text. At least one token is consumed; at the end of the input,
/// where none is left, consuming fails.
pub open spec fn consume(src: Source, pos: int, accepts: AcceptsPartial) -> Outcome<
    Seq<SpecElement>,
>
    decreases src.tokens.len() - pos, 19int, 0int,
{
    if !src.has_next(pos) {
        fail_at(src.tokens, pos, Rule::Fallback, ParseWarningKind::EndOfInput)
    } else {
        try_rules(src, pos, accepts, rules_for(src.tokens[pos].token), 0, Seq::empty())
    }
}

/// Trying the rules from the `i`th on, after the earlier ones gave the
/// warnings `warnings`.
pub open spec fn try_rules(
    src: Source,
    pos: int,
    accepts: AcceptsPartial,
    rules: Seq<Rule>,
    i: int,
    warnings: Seq<ParseWarning>,
) -> Outcome<Seq<SpecElement>>
    decreases src.tokens.len() - pos, 18int, rules.len() - i,
{
    if !src.has_next(pos) {
        fail_at(src.tokens, pos, Rule::Fallback, ParseWarningKind::EndOfInput)
    } else if i < 0 || i >= rules.len() {
        Outcome {
            result: Ok(
                SpecSuccess {
                    item: seq![SpecElement::Text(src.tokens[pos].slice@)],
                    exceptions: warnings.push(
                        warn_at(src.tokens, pos, Rule::Fallback, ParseWarningKind::NoRulesMatch),
                    ),
                    paragraph_safe: true,
                },
            ),
            pos: pos + 1,
        }
    } else if rules[i].spec_needs_line_start() && !line_starts_at(src.tokens, pos) {
        try_rules(
            src,
            pos,
            accepts,
            rules,
            i + 1,
            warnings.push(warn_at(src.tokens, pos, rules[i], ParseWarningKind::NotStartOfLine)),
        )
    } else {
        let out = apply_rule(src, pos, rules[i], accepts);
        match out.result {
            Ok(success) => Outcome {
                result: Ok(success),
                pos: if pos < out.pos {
                    out.pos
                } else {
                    pos + 1
                },
            },
            Err(warning) => try_rules(src, pos, accepts, rules, i + 1, warnings.push(warning)),
        }
    }
}

/// What rule `rule` gives at `pos`.
pub open spec fn apply_rule(src: Source, pos: int, rule: Rule, accepts: AcceptsPartial) -> Outcome<
    Seq<SpecElement>,
>
    decreases src.tokens.len() - pos, 17int, 0int,
{
    if !src.has_next(pos) {
        fail_at(src.tokens, pos, rule, ParseWarningKind::EndOfInput)
    } else {
        match rule {
            Rule::Text => succeed_at(seq![SpecElement::Text(src.tokens[pos].slice@)], true, pos + 1),
            Rule::Null => succeed_at(Seq::empty(), true, pos),
            Rule::LineBreak => succeed_at(seq![SpecElement::LineBreak], true, pos + 1),
            Rule::LineBreakParagraph => succeed_at(seq![SpecElement::LineBreaks(2)], true, pos + 1),
            Rule::EmDash => em_dash(src.tokens, pos),
            Rule::Bold
            | Rule::Italics
            | Rule::Underline
            | Rule::Strikethrough
            | Rule::Superscript
            | Rule::Subscript
            | Rule::Monospace => styled(src, pos, rule),
            Rule::LinkSingle => link_single(src, pos, rule, Token::LeftBracket, false),
            Rule::LinkSingleNewTab => link_single(src, pos, rule, Token::LeftBracketStar, true),
            Rule::Header => header(src, pos, rule),
            Rule::List => list(src, pos, rule),
            Rule::Block | Rule::BlockStar => block(src, pos, rule, accepts),
            Rule::DefinitionList => definition_list(src, pos, rule),
            Rule::DefinitionListSkipNewline => newline_skipped(src, pos, rule),
            _ => fail_at(src.tokens, pos, rule, ParseWarningKind::RuleFailed),
        }
    }
}

/// A styled container: the opening sigil at `pos`, elements, and the closing
/// sigil.
pub open spec fn styled(src: Source, pos: int, rule: Rule) -> Outcome<Seq<SpecElement>>
    decreases src.tokens.len() - pos, 16int, 0int,
{
    if !src.has_next(pos) || styled_by(rule) is None {
        fail_at(src.tokens, pos, rule, ParseWarningKind::RuleFailed)
    } else {
        let (ctype, close) = styled_by(rule)->0;
        container_of(
            collect_elements(
                src,
                pos + 1,
                rule,
                AcceptsPartial::Nothing,
                styled_close(close),
                styled_invalid(close),
                None,
                Seq::empty(),
                Seq::empty(),
                true,
            ),
            ctype,
            Seq::empty(),
        )
    }
}

/// A heading: one to six `+` at `pos`, a space, and elements up to the end
/// of the line.
pub open spec fn header(src: Source, pos: int, rule: Rule) -> Outcome<Seq<SpecElement>>
    decreases src.tokens.len() - pos, 16int, 0int,
{
    if !src.has_next(pos) || src.tokens[pos].token != Token::Heading {
        fail_at(src.tokens, pos, rule, ParseWarningKind::RuleFailed)
    } else if heading_level(src.tokens[pos].slice@) is None {
        fail_at(src.tokens, pos, rule, ParseWarningKind::RuleFailed)
    } else if !src.has(pos + 2) || src.tokens[pos + 1].token != Token::Whitespace {
        fail_at(src.tokens, pos, rule, ParseWarningKind::RuleFailed)
    } else {
        container_of(
            collect_elements(
                src,
                pos + 2,
                rule,
                AcceptsPartial::Nothing,
                header_close(),
                Seq::empty(),
                None,
                Seq::empty(),
                Seq::empty(),
                true,
            ),
            ContainerType::Header(heading_level(src.tokens[pos].slice@)->0),
            Seq::empty(),
        )
    }
}

/// One row of a definition list, `: key : value`, at the start of a line.
/// The key runs up to a space that a colon follows and must not be blank;
/// the value runs up to the end of the line. Both lose the blank elements at
/// their ends. The flag says that the list ends with this row: a paragraph
/// break or the end of the input follows it.
pub open spec fn definition_item(src: Source, pos: int, rule: Rule) -> Outcome<
    (SpecDefinitionListItem, bool),
>
    decreases src.tokens.len() - pos, 14int, 0int,
{
    if !src.has(pos + 2) || pos < 0 || !line_starts_at(src.tokens, pos) || src.tokens[pos].token
        != Token::Colon || src.tokens[pos + 1].token != Token::Whitespace {
        fail_at(src.tokens, pos, rule, ParseWarningKind::RuleFailed)
    } else {
        let key_part = collect_elements(
            src,
            pos + 2,
            rule,
            AcceptsPartial::Nothing,
            key_close(),
            key_invalid(),
            None,
            Seq::empty(),
            Seq::empty(),
            true,
        );
        match key_part.result {
            Err(warning) => Outcome { result: Err(warning), pos: key_part.pos },
            Ok(key) => if stripped(key.item.0).len() == 0 {
                fail_at(src.tokens, key_part.pos, rule, ParseWarningKind::RuleFailed)
            } else if key_part.pos <= pos || !src.has_next(key_part.pos) {
                fail_at(src.tokens, key_part.pos, rule, ParseWarningKind::EndOfInput)
            } else {
                let value_part = collect_elements(
                    src,
                    key_part.pos + 1,
                    rule,
                    AcceptsPartial::Nothing,
                    value_close(),
                    Seq::empty(),
                    None,
                    Seq::empty(),
                    Seq::empty(),
                    true,
                );
                match value_part.result {
                    Err(warning) => Outcome { result: Err(warning), pos: value_part.pos },
                    Ok(value) => Outcome {
                        result: Ok(
                            SpecSuccess {
                                item: (
                                    SpecDefinitionListItem {
                                        key: stripped(key.item.0),
                                        value: stripped(value.item.0),
                                    },
                                    value.item.1 != Token::LineBreak,
                                ),
                                exceptions: key.exceptions + value.exceptions,
                                paragraph_safe: false,
                            },
                        ),
                        pos: value_part.pos,
                    },
                }
            },
        }
    }
}

/// A definition list: one row at `pos`, and every row that follows it
/// directly.
pub open spec fn definition_list(src: Source, pos: int, rule: Rule) -> Outcome<Seq<SpecElement>>
    decreases src.tokens.len() - pos, 16int, 0int,
{
    let first = definition_item(src, pos, rule);
    match first.result {
        Err(warning) => Outcome { result: Err(warning), pos: first.pos },
        Ok(row) => if pos < first.pos && src.has(first.pos) {
            definition_rows(src, first.pos, rule, seq![row.item.0], row.item.1)
        } else {
            fail_at(src.tokens, pos, rule, ParseWarningKind::RuleFailed)
        },
    }
}

/// The rows of a definition list after `rows`, from `pos` on; `at_end` says
/// that the last row ended the list.
pub open spec fn definition_rows(
    src: Source,
    pos: int,
    rule: Rule,
    rows: Seq<SpecDefinitionListItem>,
    at_end: bool,
) -> Outcome<Seq<SpecElement>>
    decreases src.tokens.len() - pos, 15int, 0int,
{
    if at_end || !src.has(pos) {
        succeed_at(seq![SpecElement::DefinitionList(rows)], false, pos)
    } else {
        let next = definition_item(src, pos, rule);
        match next.result {
            Ok(row) => if pos < next.pos && src.has(next.pos) {
                definition_rows(src, next.pos, rule, rows.push(row.item.0), row.item.1)
            } else {
                succeed_at(seq![SpecElement::DefinitionList(rows)], false, pos)
            },
            Err(_) => succeed_at(seq![SpecElement::DefinitionList(rows)], false, pos),
        }
    }
}

/// A list: the start of a line at `pos`, and the item lines that follow.
pub open spec fn list(src: Source, pos: int, rule: Rule) -> Outcome<Seq<SpecElement>>
    decreases src.tokens.len() - pos, 16int, 0int,
{
    if !src.has_next(pos) || !(src.tokens[pos].token == Token::InputStart || src.tokens[pos].token
        == Token::LineBreak) {
        fail_at(src.tokens, pos, rule, ParseWarningKind::RuleFailed)
    } else {
        list_items(src, pos + 1, rule, None, Seq::empty(), Seq::empty())
    }
}

/// The item lines of a list from `pos` on, after the lines `entries`. A line
/// is made of spaces that give its depth, a marker that gives its kind, a
/// space, and elements up to the end of the line. The list ends where a line
/// does not have this shape. The kind of the first marker is the kind of the
/// list. A line whose marker is of another kind than the list that it joins
/// gives a warning at its marker, and joins all the same.
pub open spec fn list_items(
    src: Source,
    pos: int,
    rule: Rule,
    top: Option<ListType>,
    entries: Seq<SpecDepthEntry>,
    exceptions: Seq<ParseWarning>,
) -> Outcome<Seq<SpecElement>>
    decreases src.tokens.len() - pos, 15int, 0int,
{
    if !src.has(pos) || pos < 0 {
        list_end(src, pos, rule, top, entries, exceptions)
    } else {
        let token = src.tokens[pos].token;
        let indented = token == Token::Whitespace;
        if !indented && list_type_of(token) is None {
            list_end(src, pos, rule, top, entries, exceptions)
        } else {
            let depth = if indented {
                src.tokens[pos].slice@.len()
            } else {
                0
            };
            let marker = if indented {
                pos + 1
            } else {
                pos
            };
            if !src.has(marker) || list_type_of(src.tokens[marker].token) is None {
                list_end(src, marker, rule, top, entries, exceptions)
            } else {
                let ltype = list_type_of(src.tokens[marker].token)->0;
                let top = if top is None {
                    Some(ltype)
                } else {
                    top
                };
                if !src.has(marker + 2) || src.tokens[marker + 1].token != Token::Whitespace {
                    list_end(src, marker + 1, rule, top, entries, exceptions)
                } else {
                    let line = collect_elements(
                        src,
                        marker + 2,
                        rule,
                        AcceptsPartial::Nothing,
                        list_close(),
                        list_invalid(),
                        None,
                        Seq::empty(),
                        Seq::empty(),
                        true,
                    );
                    match line.result {
                        Err(warning) => Outcome { result: Err(warning), pos: line.pos },
                        Ok(collected) => if pos < line.pos && src.has(line.pos) {
                            list_items(
                                src,
                                line.pos,
                                rule,
                                top,
                                entries.push(
                                    SpecDepthEntry { depth, ltype, elements: collected.item.0 },
                                ),
                                (if kind_mismatch(open_kinds(entries), depth, ltype) {
                                    exceptions.push(
                                        warn_at(
                                            src.tokens,
                                            marker,
                                            rule,
                                            ParseWarningKind::ListTypeMismatch,
                                        ),
                                    )
                                } else {
                                    exceptions
                                }) + collected.exceptions,
                            )
                        } else {
                            fail_at(src.tokens, pos, rule, ParseWarningKind::RuleFailed)
                        },
                    }
                }
            }
        }
    }
}

/// The list that the lines `entries` make, or a failure where there is no
/// line.
pub open spec fn list_end(
    src: Source,
    pos: int,
    rule: Rule,
    top: Option<ListType>,
    entries: Seq<SpecDepthEntry>,
    exceptions: Seq<ParseWarning>,
) -> Outcome<Seq<SpecElement>> {
    match top {
        Some(ltype) => if entries.len() > 0 {
            Outcome {
                result: Ok(
                    SpecSuccess {
                        item: seq![build_list(spec_process_depths(ltype, entries), ltype)],
                        exceptions,
                        paragraph_safe: false,
                    },
                ),
                pos,
            }
        } else {
            fail_at(src.tokens, pos, rule, ParseWarningKind::RuleFailed)
        },
        None => fail_at(src.tokens, pos, rule, ParseWarningKind::RuleFailed),
    }
}

/// The container that wraps collected elements.
pub open spec fn container_of(
    collected: Outcome<(Seq<SpecElement>, Token)>,
    ctype: ContainerType,
    attributes: SpecAttributes,
) -> Outcome<Seq<SpecElement>> {
    match collected.result {
        Ok(success) => Outcome {
            result: Ok(
                SpecSuccess {
                    item: seq![
                        SpecElement::Container { ctype, elements: success.item.0, attributes },
                    ],
                    exceptions: success.exceptions,
                    paragraph_safe: ctype.spec_paragraph_safe(),
                },
            ),
            pos: collected.pos,
        },
        Err(warning) => Outcome { result: Err(warning), pos: collected.pos },
    }
}

} // verus!
