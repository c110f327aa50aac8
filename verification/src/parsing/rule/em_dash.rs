//! The rule for em dashes: `--` that no strikethrough claims.

use crate::parsing::consume::single;
use crate::parsing::grammar::{elements_ok, step_over};
use crate::parsing::parser::{succeed_at, Parser};
use crate::parsing::result::{elements_result, Elements, Outcome, ParseSuccess, ParseWarning};
use crate::parsing::token::{ExtractedToken, Token};
use crate::tree::element::{Element, SpecElement};
use vstd::prelude::*;

verus! {

/// The text of an em dash.
pub open spec fn em_dash_text() -> Seq<char> {
    seq!['\u{2014}']
}

/// What the rule gives at `pos`, whatever the token there: an em dash as
/// text, one token on; at the end of the input, where no token is left to
/// step over, the cursor stays.
pub open spec fn em_dash(tokens: Seq<ExtractedToken>, pos: int) -> Outcome<Seq<SpecElement>> {
    succeed_at(seq![SpecElement::Text(em_dash_text())], true, step_over(tokens, pos))
}

/// Produces an em dash as text, and steps over the current token. The rule
/// always matches.
pub fn try_consume(parser: &mut Parser) -> (r: Result<ParseSuccess<Elements>, ParseWarning>)
    requires
        old(parser).wf(),
    ensures
        final(parser).wf(),
        final(parser).moved_from(old(parser)),
        final(parser).pos >= old(parser).pos,
        r is Ok,
        r matches Ok(success) ==> success.item.one_at_most(),
        (Outcome { result: elements_result(r), pos: final(parser).pos as int }) == em_dash(
            old(parser).tokens@,
            old(parser).pos as int,
        ),
        r matches Ok(success) ==> elements_ok(success.item@, old(parser).accepts_partial),
{
    if parser.current().token != Token::InputEnd {
        let _ = parser.step();
    }
    let element = Element::Text(String::from_str("\u{2014}"));
    proof {
        reveal_strlit("\u{2014}");
        assert("\u{2014}"@ =~= em_dash_text());
        assert(seq![element@][0] == element@);
    }
    Ok(single(element))
}

} // verus!
