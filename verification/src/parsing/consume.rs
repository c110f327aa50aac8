//! Consuming one element: the rules for the current token are tried in order.

use crate::parsing::collect::collect_container;
use crate::parsing::grammar;
use crate::parsing::grammar::{elements_ok, rules_for, styled_by};
use crate::parsing::parser::{ParseCondition, Parser};
use crate::parsing::result::{
    elements_result, Elements, Outcome, ParseSuccess, ParseWarning, ParseWarningKind, Rule,
};
use crate::parsing::rule::definition_list::{parse_definition_list, skip_newline};
use crate::parsing::rule::block::parse_any_block;
use crate::parsing::rule::em_dash;
use crate::parsing::rule::header::header;
use crate::parsing::rule::list::try_consume_fn;
use crate::parsing::rule::link_single::{link, link_new_tab};
use crate::parsing::token::Token;
use crate::tree::attribute::AttributeMap;
use crate::tree::container::ContainerType;
use crate::tree::element::Element;
use vstd::prelude::*;

verus! {

/// The `i`th rule that is tried at a token of the given kind.
pub fn rule_for(token: Token, i: usize) -> (r: Option<Rule>)
    ensures
        r == if i < rules_for(token).len() {
            Some(rules_for(token)[i as int])
        } else {
            None
        },
        rules_for(token).len() <= 3,
{
    reveal(rules_for);
    match token {
        Token::InputStart => match i {
            0 => Some(Rule::List),
            1 => Some(Rule::Null),
            _ => None,
        },
        Token::LineBreak => match i {
            0 => Some(Rule::DefinitionListSkipNewline),
            1 => Some(Rule::List),
            2 => Some(Rule::LineBreak),
            _ => None,
        },
        Token::DoubleDash => match i {
            0 => Some(Rule::Strikethrough),
            1 => Some(Rule::EmDash),
            _ => None,
        },
        _ => if i == 0 {
            Some(
                match token {
                    Token::ParagraphBreak => Rule::LineBreakParagraph,
                    Token::Bold => Rule::Bold,
                    Token::Italics => Rule::Italics,
                    Token::Underline => Rule::Underline,
                    Token::Superscript => Rule::Superscript,
                    Token::Subscript => Rule::Subscript,
                    Token::LeftMonospace => Rule::Monospace,
                    Token::Heading => Rule::Header,
                    Token::LeftBracket => Rule::LinkSingle,
                    Token::LeftBracketStar => Rule::LinkSingleNewTab,
                    Token::Colon => Rule::DefinitionList,
                    Token::LeftBlock => Rule::Block,
                    Token::LeftBlockStar => Rule::BlockStar,
                    _ => Rule::Text,
                },
            )
        } else {
            None
        },
    }
}

/// A success that holds one element and no warning.
pub fn single(element: Element) -> (r: ParseSuccess<Elements>)
    ensures
        r.item == Elements::Single(element),
        r.exceptions@ == Seq::<ParseWarning>::empty(),
        r.paragraph_safe == element.spec_paragraph_safe(),
{
    let paragraph_safe = element.paragraph_safe();
    ParseSuccess { item: Elements::Single(element), exceptions: Vec::new(), paragraph_safe }
}

/// Consumes one element at the cursor.
///
/// The rules for the current token are tried in order, each on a copy of the
/// parser; the first that matches moves the parser. Where none matches the
/// token becomes text, and the warnings of the rules go with it. At the end
/// of the input there is nothing to consume: that alone fails.
#[verifier::rlimit(40)]
pub fn consume(parser: &mut Parser) -> (r: Result<ParseSuccess<Elements>, ParseWarning>)
    requires
        old(parser).wf(),
    ensures
        final(parser).wf(),
        final(parser).moved_from(old(parser)),
        final(parser).pos >= old(parser).pos,
        r is Ok <==> old(parser).tokens@[old(parser).pos as int].token != Token::InputEnd,
        r is Ok ==> final(parser).pos > old(parser).pos,
        r matches Ok(success) ==> success.item.one_at_most(),
        (Outcome { result: elements_result(r), pos: final(parser).pos as int })
            == grammar::consume(
            old(parser).source(),
            old(parser).pos as int,
            old(parser).accepts_partial,
        ),
        r matches Ok(success) ==> elements_ok(success.item@, old(parser).accepts_partial),
    decreases old(parser).remaining(), 19int, 0int,
{
    let current = parser.current();
    let token = current.token;
    let mut warnings: Vec<ParseWarning> = Vec::new();
    let mut i: usize = 0;
    let ghost src = parser.source();
    let ghost pos = parser.pos as int;
    let ghost accepts = parser.accepts_partial;
    if token == Token::InputEnd {
        return Err(
            ParseWarning {
                token,
                rule: Rule::Fallback,
                span: current.span,
                kind: ParseWarningKind::EndOfInput,
            },
        );
    }
    loop
        invariant
            *parser == *old(parser),
            parser.wf(),
            src == parser.source(),
            pos == parser.pos,
            accepts == parser.accepts_partial,
            *current == parser.tokens@[pos],
            token == current.token,
            token != Token::InputEnd,
            i <= rules_for(token).len(),
            grammar::try_rules(src, pos, accepts, rules_for(token), i as int, warnings@)
                == grammar::consume(src, pos, accepts),
        ensures
            i == rules_for(token).len(),
            grammar::try_rules(src, pos, accepts, rules_for(token), i as int, warnings@)
                == grammar::consume(src, pos, accepts),
            *parser == *old(parser),
        decreases rules_for(token).len() - i,
    {
        let rule = match rule_for(token, i) {
            Some(rule) => rule,
            None => {
                break ;
            },
        };
        if rule.needs_line_start() && !parser.start_of_line() {
            warnings.push(
                ParseWarning {
                    token,
                    rule,
                    span: current.span,
                    kind: ParseWarningKind::NotStartOfLine,
                },
            );
        } else {
            let mut sub_parser = *parser;
            match apply_rule(&mut sub_parser, rule) {
                Ok(success) => {
                    if sub_parser.pos <= parser.pos {
                        sub_parser.pos = parser.pos + 1;
                    }
                    parser.update(&sub_parser);
                    return Ok(success);
                },
                Err(warning) => {
                    warnings.push(warning);
                },
            }
        }
        i += 1;
    }
    warnings.push(
        ParseWarning {
            token,
            rule: Rule::Fallback,
            span: current.span,
            kind: ParseWarningKind::NoRulesMatch,
        },
    );
    let element = Element::Text(current.slice.clone());
    let _ = parser.step();
    proof {
        assert(seq![element@][0] == element@);
    }
    Ok(ParseSuccess { item: Elements::Single(element), exceptions: warnings, paragraph_safe: true })
}

/// Tries one rule at the cursor. From here on the parser is trying `rule`:
/// that is the rule its warnings name. At the end of the input every rule
/// fails.
#[verifier::rlimit(40)]
pub fn apply_rule(parser: &mut Parser, rule: Rule) -> (r: Result<
    ParseSuccess<Elements>,
    ParseWarning,
>)
    requires
        old(parser).wf(),
    ensures
        final(parser).wf(),
        *final(parser) == (Parser { pos: final(parser).pos, rule, ..*old(parser) }),
        final(parser).pos >= old(parser).pos,
        r matches Ok(success) ==> success.item.one_at_most(),
        (Outcome { result: elements_result(r), pos: final(parser).pos as int })
            == grammar::apply_rule(
            old(parser).source(),
            old(parser).pos as int,
            rule,
            old(parser).accepts_partial,
        ),
        r matches Ok(success) ==> elements_ok(success.item@, old(parser).accepts_partial),
    decreases old(parser).remaining(), 17int, 0int,
{
    parser.set_rule(rule);
    if parser.current().token == Token::InputEnd {
        return Err(parser.make_warn(ParseWarningKind::EndOfInput));
    }
    match rule {
        Rule::Text => {
            let element = Element::Text(parser.current().slice.clone());
            let _ = parser.step();
            proof {
                assert(seq![element@][0] == element@);
            }
            Ok(single(element))
        },
        Rule::Null => {
            Ok(ParseSuccess { item: Elements::Empty, exceptions: Vec::new(), paragraph_safe: true })
        },
        Rule::LineBreak => {
            let _ = parser.step();
            proof {
                assert(seq![Element::LineBreak@][0] == Element::LineBreak@);
            }
            Ok(single(Element::LineBreak))
        },
        Rule::LineBreakParagraph => {
            let _ = parser.step();
            proof {
                assert(seq![Element::LineBreaks(2)@][0] == Element::LineBreaks(2)@);
            }
            Ok(single(Element::LineBreaks(2)))
        },
        Rule::EmDash => em_dash::try_consume(parser),
        Rule::Bold
        | Rule::Italics
        | Rule::Underline
        | Rule::Strikethrough
        | Rule::Superscript
        | Rule::Subscript
        | Rule::Monospace => styled(parser, rule),
        Rule::LinkSingle => link(parser),
        Rule::LinkSingleNewTab => link_new_tab(parser),
        Rule::Header => header(parser),
        Rule::List => try_consume_fn(parser),
        Rule::Block | Rule::BlockStar => parse_any_block(parser),
        Rule::DefinitionList => parse_definition_list(parser),
        Rule::DefinitionListSkipNewline => skip_newline(parser),
        _ => Err(parser.make_warn(ParseWarningKind::RuleFailed)),
    }
}

/// The container that a rule with a pair of sigils makes, and the sigil that
/// closes it.
pub fn styled_container(rule: Rule) -> (r: Option<(ContainerType, Token)>)
    ensures
        r == styled_by(rule),
        r matches Some(found) ==> found.0.valid(),
{
    match rule {
        Rule::Bold => Some((ContainerType::Bold, Token::Bold)),
        Rule::Italics => Some((ContainerType::Italics, Token::Italics)),
        Rule::Underline => Some((ContainerType::Underline, Token::Underline)),
        Rule::Strikethrough => Some((ContainerType::Strikethrough, Token::DoubleDash)),
        Rule::Superscript => Some((ContainerType::Superscript, Token::Superscript)),
        Rule::Subscript => Some((ContainerType::Subscript, Token::Subscript)),
        Rule::Monospace => Some((ContainerType::Monospace, Token::RightMonospace)),
        _ => None,
    }
}

/// Parses a container that is opened and closed by sigils: the cursor is at
/// the opening sigil. The warnings name `rule`. The rule fails at the end of
/// the input, and for a rule that makes no such container.
pub fn styled(parser: &mut Parser, rule: Rule) -> (r: Result<ParseSuccess<Elements>, ParseWarning>)
    requires
        old(parser).wf(),
    ensures
        final(parser).wf(),
        final(parser).moved_from(old(parser)),
        final(parser).pos >= old(parser).pos,
        r matches Ok(success) ==> success.item.one_at_most(),
        (Outcome { result: elements_result(r), pos: final(parser).pos as int }) == grammar::styled(
            old(parser).source(),
            old(parser).pos as int,
            rule,
        ),
        r matches Ok(success) ==> elements_ok(success.item@, old(parser).accepts_partial),
    decreases old(parser).remaining(), 16int, 0int,
{
    let found = if parser.current().token == Token::InputEnd {
        None
    } else {
        styled_container(rule)
    };
    match found {
        Some((container_type, close)) => {
            let _ = parser.step();
            let close_conditions = [ParseCondition::current(close)];
            let invalid_conditions = [
                ParseCondition::current(Token::ParagraphBreak),
                ParseCondition::token_pair(Token::Whitespace, close),
            ];
            assert(close_conditions@ =~= grammar::styled_close(close));
            assert(invalid_conditions@ =~= grammar::styled_invalid(close));
            collect_container(
                parser,
                rule,
                container_type,
                AttributeMap::new(),
                close_conditions.as_slice(),
                invalid_conditions.as_slice(),
                None,
            )
        },
        None => {
            let saved = parser.rule();
            parser.set_rule(rule);
            let warning = parser.make_warn(ParseWarningKind::RuleFailed);
            parser.set_rule(saved);
            Err(warning)
        },
    }
}

} // verus!
