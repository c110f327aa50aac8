//! The rules for links in single brackets, `[https://example.com/ Label text]`.
//!
//! Such a link names any URL, and opens in a new tab where the bracket is
//! followed by a star.

use crate::parsing::collect::collect_text;
use crate::parsing::grammar::{collect_text as spec_collect_text, elements_ok, Source};
use crate::parsing::parser::{fail_at, succeed_at, warn_at, ParseCondition, Parser};
use crate::parsing::result::{
    elements_result, Elements, Outcome, ParseSuccess, ParseWarning, ParseWarningKind, Rule,
};
use crate::parsing::token::Token;
use crate::settings::spec_interwiki_build;
use crate::text::{trim, trimmed};
use crate::tree::element::{Element, SpecElement};
use crate::tree::link::{LinkLabel, LinkLocation, SpecLinkLabel, SpecLinkLocation};
use crate::url::{spec_url_valid, url_valid};
use vstd::prelude::*;

verus! {

/// What ends the URL of a link: a space.
pub open spec fn url_close() -> Seq<ParseCondition> {
    seq![ParseCondition::CurrentToken(Token::Whitespace)]
}

/// What a URL cannot hold: the closing bracket and the end of the line.
pub open spec fn url_invalid() -> Seq<ParseCondition> {
    seq![
        ParseCondition::CurrentToken(Token::RightBracket),
        ParseCondition::CurrentToken(Token::ParagraphBreak),
        ParseCondition::CurrentToken(Token::LineBreak),
    ]
}

/// What ends the label of a link: the closing bracket.
pub open spec fn label_close() -> Seq<ParseCondition> {
    seq![ParseCondition::CurrentToken(Token::RightBracket)]
}

/// What a label cannot hold: the end of the line.
pub open spec fn label_invalid() -> Seq<ParseCondition> {
    seq![
        ParseCondition::CurrentToken(Token::ParagraphBreak),
        ParseCondition::CurrentToken(Token::LineBreak),
    ]
}

/// The URL that a link points to, and whether it came from an interwiki
/// prefix.
pub open spec fn link_target(src: Source, written: Seq<char>) -> (Seq<char>, bool) {
    match spec_interwiki_build(src.settings.interwiki@, written) {
        Some(url) => (url, true),
        None => (written, false),
    }
}

/// A single-bracket link whose opening bracket, of kind `open`, is at `pos`:
/// the text up to the first space is the URL, which an interwiki prefix may
/// expand and which must be valid; the rest up to the closing bracket is the
/// label, trimmed.
pub open spec fn link_single(src: Source, pos: int, rule: Rule, open: Token, new_tab: bool) -> Outcome<
    Seq<SpecElement>,
> {
    if !src.has_next(pos) || src.tokens[pos].token != open {
        fail_at(src.tokens, pos, rule, ParseWarningKind::RuleFailed)
    } else {
        let url_part = spec_collect_text(
            src,
            pos + 1,
            rule,
            url_close(),
            url_invalid(),
            None,
            Seq::empty(),
        );
        match url_part.result {
            Err(warning) => Outcome { result: Err(warning), pos: url_part.pos },
            Ok(found) => {
                let (url, interwiki) = link_target(src, found.item.0);
                if !spec_url_valid(url) {
                    fail_at(src.tokens, url_part.pos, rule, ParseWarningKind::InvalidUrl)
                } else {
                    let label_part = spec_collect_text(
                        src,
                        url_part.pos,
                        rule,
                        label_close(),
                        label_invalid(),
                        None,
                        Seq::empty(),
                    );
                    match label_part.result {
                        Err(warning) => Outcome { result: Err(warning), pos: label_part.pos },
                        Ok(label) => succeed_at(
                            seq![
                                SpecElement::Link {
                                    target: SpecLinkLocation::Url(url),
                                    label: SpecLinkLabel::Text(trimmed(label.item.0)),
                                    new_tab,
                                    interwiki,
                                },
                            ],
                            true,
                            label_part.pos,
                        ),
                    }
                }
            },
        }
    }
}

/// Fails unless the current token has kind `token`; steps over it, which
/// fails at the end of the input.
pub fn check_step(parser: &mut Parser, token: Token) -> (r: Result<(), ParseWarning>)
    requires
        old(parser).wf(),
    ensures
        final(parser).wf(),
        final(parser).moved_from(old(parser)),
        r is Ok <==> old(parser).tokens@[old(parser).pos as int].token == token && token
            != Token::InputEnd,
        match r {
            Ok(_) => final(parser).pos == old(parser).pos + 1,
            Err(warning) => final(parser).pos == old(parser).pos && warning == warn_at(
                old(parser).tokens@,
                old(parser).pos as int,
                old(parser).rule,
                if old(parser).tokens@[old(parser).pos as int].token == token {
                    ParseWarningKind::EndOfInput
                } else {
                    ParseWarningKind::RuleFailed
                },
            ),
        },
{
    if parser.current().token != token {
        return Err(parser.make_warn(ParseWarningKind::RuleFailed));
    }
    parser.step()
}

/// Parses a link that opens in the same tab.
pub fn link(parser: &mut Parser) -> (r: Result<ParseSuccess<Elements>, ParseWarning>)
    requires
        old(parser).wf(),
    ensures
        final(parser).wf(),
        final(parser).moved_from(old(parser)),
        final(parser).pos >= old(parser).pos,
        r matches Ok(success) ==> success.item.one_at_most(),
        (Outcome { result: elements_result(r), pos: final(parser).pos as int }) == link_single(
            old(parser).source(),
            old(parser).pos as int,
            old(parser).rule,
            Token::LeftBracket,
            false,
        ),
        r matches Ok(success) ==> elements_ok(success.item@, old(parser).accepts_partial),
{
    match check_step(parser, Token::LeftBracket) {
        Ok(_) => {
            let rule = parser.rule();
            try_consume_link(parser, rule, false)
        },
        Err(warning) => Err(warning),
    }
}

/// Parses a link that opens in a new tab.
pub fn link_new_tab(parser: &mut Parser) -> (r: Result<ParseSuccess<Elements>, ParseWarning>)
    requires
        old(parser).wf(),
    ensures
        final(parser).wf(),
        final(parser).moved_from(old(parser)),
        final(parser).pos >= old(parser).pos,
        r matches Ok(success) ==> success.item.one_at_most(),
        (Outcome { result: elements_result(r), pos: final(parser).pos as int }) == link_single(
            old(parser).source(),
            old(parser).pos as int,
            old(parser).rule,
            Token::LeftBracketStar,
            true,
        ),
        r matches Ok(success) ==> elements_ok(success.item@, old(parser).accepts_partial),
{
    match check_step(parser, Token::LeftBracketStar) {
        Ok(_) => {
            let rule = parser.rule();
            try_consume_link(parser, rule, true)
        },
        Err(warning) => Err(warning),
    }
}

/// Builds a single-bracket link; the cursor is behind the opening bracket.
fn try_consume_link(parser: &mut Parser, rule: Rule, new_tab: bool) -> (r: Result<
    ParseSuccess<Elements>,
    ParseWarning,
>)
    requires
        old(parser).wf(),
        old(parser).rule == rule,
        old(parser).pos >= 1,
    ensures
        final(parser).wf(),
        final(parser).moved_from(old(parser)),
        final(parser).pos >= old(parser).pos,
        r matches Ok(success) ==> success.item.one_at_most(),
        (Outcome { result: elements_result(r), pos: final(parser).pos as int }) == link_single(
            old(parser).source(),
            old(parser).pos - 1,
            rule,
            old(parser).tokens@[old(parser).pos - 1].token,
            new_tab,
        ),
        r matches Ok(success) ==> elements_ok(success.item@, old(parser).accepts_partial),
{
    let url_close = [ParseCondition::current(Token::Whitespace)];
    let url_invalid = [
        ParseCondition::current(Token::RightBracket),
        ParseCondition::current(Token::ParagraphBreak),
        ParseCondition::current(Token::LineBreak),
    ];
    assert(url_close@ =~= self::url_close());
    assert(url_invalid@ =~= self::url_invalid());
    let written_link = match collect_text(
        parser,
        rule,
        url_close.as_slice(),
        url_invalid.as_slice(),
        None,
    ) {
        Ok(text) => text,
        Err(warning) => {
            return Err(warning);
        },
    };

    let (url, interwiki) = match parser.settings().interwiki_build(written_link.as_str()) {
        Some(url) => (url, true),
        None => (written_link, false),
    };

    if !url_valid(url.as_str()) {
        return Err(parser.make_warn(ParseWarningKind::InvalidUrl));
    }

    let label_close = [ParseCondition::current(Token::RightBracket)];
    let label_invalid = [
        ParseCondition::current(Token::ParagraphBreak),
        ParseCondition::current(Token::LineBreak),
    ];
    assert(label_close@ =~= self::label_close());
    assert(label_invalid@ =~= self::label_invalid());
    let label = match collect_text(
        parser,
        rule,
        label_close.as_slice(),
        label_invalid.as_slice(),
        None,
    ) {
        Ok(text) => text,
        Err(warning) => {
            return Err(warning);
        },
    };

    let label = trim(label.as_str());

    let element = Element::Link {
        target: LinkLocation::Url(url),
        label: LinkLabel::Text(label),
        new_tab,
        interwiki,
    };
    proof {
        assert(seq![element@][0] == element@);
        assert(element@.valid());
        assert(element@.partial_free());
    }

    Ok(crate::parsing::consume::single(element))
}

} // verus!
