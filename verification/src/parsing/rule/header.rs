//! The rule for headings: `+ Title` to `++++++ Title` at the start of a line.

use crate::parsing::collect::collect_container;
use crate::parsing::grammar;
use crate::parsing::grammar::elements_ok;
use crate::parsing::parser::{ParseCondition, Parser};
use crate::parsing::result::{
    elements_result, Elements, Outcome, ParseSuccess, ParseWarning, ParseWarningKind,
};
use crate::parsing::token::Token;
use crate::tree::attribute::AttributeMap;
use crate::tree::container::{ContainerType, MAX_HEADING_LEVEL, MIN_HEADING_LEVEL};
use vstd::prelude::*;

verus! {

/// The level of the heading that `marker` opens: its length, if that is a
/// level a heading can have.
pub open spec fn heading_level(marker: Seq<char>) -> Option<u8> {
    if MIN_HEADING_LEVEL <= marker.len() <= MAX_HEADING_LEVEL {
        Some(marker.len() as u8)
    } else {
        None
    }
}

/// What ends a heading: the end of its line.
pub open spec fn header_close() -> Seq<ParseCondition> {
    seq![
        ParseCondition::CurrentToken(Token::LineBreak),
        ParseCondition::CurrentToken(Token::ParagraphBreak),
        ParseCondition::CurrentToken(Token::InputEnd),
    ]
}

/// Parses a heading; the cursor is at its `+` marker.
pub fn header(parser: &mut Parser) -> (r: Result<ParseSuccess<Elements>, ParseWarning>)
    requires
        old(parser).wf(),
    ensures
        final(parser).wf(),
        final(parser).moved_from(old(parser)),
        final(parser).pos >= old(parser).pos,
        r matches Ok(success) ==> success.item.one_at_most(),
        (Outcome { result: elements_result(r), pos: final(parser).pos as int }) == grammar::header(
            old(parser).source(),
            old(parser).pos as int,
            old(parser).rule,
        ),
        r matches Ok(success) ==> elements_ok(success.item@, old(parser).accepts_partial),
    decreases old(parser).remaining(), 16int, 0int,
{
    let current = parser.current();
    if current.token != Token::Heading {
        return Err(parser.make_warn(ParseWarningKind::RuleFailed));
    }
    let length = current.slice.as_str().unicode_len();
    if length < MIN_HEADING_LEVEL as usize || length > MAX_HEADING_LEVEL as usize {
        return Err(parser.make_warn(ParseWarningKind::RuleFailed));
    }
    let level = length as u8;
    match parser.look_ahead(1) {
        Some(next) => {
            if next.token != Token::Whitespace {
                return Err(parser.make_warn(ParseWarningKind::RuleFailed));
            }
        },
        None => {
            return Err(parser.make_warn(ParseWarningKind::RuleFailed));
        },
    }
    let _ = parser.step_n(2);
    let close_conditions = [
        ParseCondition::current(Token::LineBreak),
        ParseCondition::current(Token::ParagraphBreak),
        ParseCondition::current(Token::InputEnd),
    ];
    let invalid_conditions: [ParseCondition; 0] = [];
    assert(close_conditions@ =~= header_close());
    assert(invalid_conditions@ =~= Seq::<ParseCondition>::empty());
    let rule = parser.rule();
    collect_container(
        parser,
        rule,
        ContainerType::Header(level),
        AttributeMap::new(),
        close_conditions.as_slice(),
        invalid_conditions.as_slice(),
        None,
    )
}

} // verus!
