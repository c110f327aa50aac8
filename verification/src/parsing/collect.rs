//! Collecting tokens into text or elements until a closing condition holds.

use crate::parsing::consume::consume;
use crate::parsing::grammar;
use crate::parsing::grammar::{elements_ok, lemma_ok_concat, Source};
use crate::parsing::parser::{ParseCondition, Parser};
use crate::parsing::result::{
    collected_result, collected_text_result, elements_result, Elements,
    Outcome, ParseSuccess, ParseWarning, ParseWarningKind, Rule, SpecSuccess,
};
use crate::parsing::token::Token;
use crate::tree::attribute::AttributeMap;
use crate::tree::container::ContainerType;
use crate::tree::element::{element_views, Element, SpecElement};
use vstd::prelude::*;

verus! {

impl<'t> Parser<'t> {
    /// What this parser parses.
    pub open spec fn source(&self) -> Source {
        Source { tokens: self.tokens@, settings: *self.settings }
    }
}

/// The kind of warning to give: `warn_kind` if there is one, else `default`.
fn kind_or(warn_kind: Option<ParseWarningKind>, default: ParseWarningKind) -> (r: ParseWarningKind)
    ensures
        r == grammar::warn_kind_or(warn_kind, default),
{
    match warn_kind {
        Some(kind) => kind,
        None => default,
    }
}

/// Collects the text of the tokens up to the first that meets a condition of
/// `close`, and steps over that token. Returns the text and the kind of the
/// closing token. A warning names `rule`, whatever rule the parser itself is
/// working on, and the parser goes on working on that one.
pub fn collect_text_keep(
    parser: &mut Parser,
    rule: Rule,
    close_conditions: &[ParseCondition],
    invalid_conditions: &[ParseCondition],
    warn_kind: Option<ParseWarningKind>,
) -> (r: Result<ParseSuccess<(String, Token)>, ParseWarning>)
    requires
        old(parser).wf(),
    ensures
        final(parser).wf(),
        final(parser).moved_from(old(parser)),
        final(parser).pos >= old(parser).pos,
        (Outcome { result: collected_text_result(r), pos: final(parser).pos as int })
            == grammar::collect_text(
            old(parser).source(),
            old(parser).pos as int,
            rule,
            close_conditions@,
            invalid_conditions@,
            warn_kind,
            Seq::empty(),
        ),
{
    let saved = parser.rule();
    parser.set_rule(rule);
    let mut text = String::new();
    let ghost src = parser.source();
    loop
        invariant
            parser.wf(),
            parser.tokens == old(parser).tokens,
            parser.settings == old(parser).settings,
            parser.accepts_partial == old(parser).accepts_partial,
            parser.rule == rule,
            saved == old(parser).rule,
            parser.pos >= old(parser).pos,
            src == parser.source(),
            grammar::collect_text(
                src,
                parser.pos as int,
                rule,
                close_conditions@,
                invalid_conditions@,
                warn_kind,
                text@,
            ) == grammar::collect_text(
                src,
                old(parser).pos as int,
                rule,
                close_conditions@,
                invalid_conditions@,
                warn_kind,
                Seq::empty(),
            ),
        decreases parser.remaining(),
    {
        let current = parser.current();
        if parser.evaluate_any(close_conditions) {
            let last = current.token;
            if last != Token::InputEnd {
                let _ = parser.step();
            }
            parser.set_rule(saved);
            return Ok(
                ParseSuccess { item: (text, last), exceptions: Vec::new(), paragraph_safe: true },
            );
        }
        if parser.evaluate_any(invalid_conditions) {
            let warning = parser.make_warn(kind_or(warn_kind, ParseWarningKind::RuleFailed));
            parser.set_rule(saved);
            return Err(warning);
        }
        if current.token == Token::InputEnd {
            let warning = parser.make_warn(kind_or(warn_kind, ParseWarningKind::EndOfInput));
            parser.set_rule(saved);
            return Err(warning);
        }
        text.append(current.slice.as_str());
        let _ = parser.step();
    }
}

/// Collects the text of the tokens up to the first that meets a condition of
/// `close`, and steps over that token. A warning names `rule`.
pub fn collect_text(
    parser: &mut Parser,
    rule: Rule,
    close_conditions: &[ParseCondition],
    invalid_conditions: &[ParseCondition],
    warn_kind: Option<ParseWarningKind>,
) -> (r: Result<String, ParseWarning>)
    requires
        old(parser).wf(),
    ensures
        final(parser).wf(),
        final(parser).moved_from(old(parser)),
        final(parser).pos >= old(parser).pos,
        ({
            let out = grammar::collect_text(
                old(parser).source(),
                old(parser).pos as int,
                rule,
                close_conditions@,
                invalid_conditions@,
                warn_kind,
                Seq::empty(),
            );
            &&& out.pos == final(parser).pos
            &&& match r {
                Ok(text) => out.result is Ok && out.result->Ok_0.item.0 == text@,
                Err(warning) => out.result == Err::<SpecSuccess<(Seq<char>, Token)>, ParseWarning>(
                    warning,
                ),
            }
        }),
{
    match collect_text_keep(parser, rule, close_conditions, invalid_conditions, warn_kind) {
        Ok(success) => Ok(success.item.0),
        Err(warning) => Err(warning),
    }
}

/// Consumes elements up to the first token that meets a condition of
/// `close`, and steps over that token. Returns the elements and the kind of
/// the closing token. A warning of the collecting itself names `rule`,
/// whatever rule the parser itself is working on, and the parser goes on
/// working on that one.
#[verifier::rlimit(40)]
pub fn collect_consume_keep(
    parser: &mut Parser,
    rule: Rule,
    close_conditions: &[ParseCondition],
    invalid_conditions: &[ParseCondition],
    warn_kind: Option<ParseWarningKind>,
) -> (r: Result<ParseSuccess<(Vec<Element>, Token)>, ParseWarning>)
    requires
        old(parser).wf(),
    ensures
        final(parser).wf(),
        final(parser).moved_from(old(parser)),
        final(parser).pos >= old(parser).pos,
        (Outcome { result: collected_result(r), pos: final(parser).pos as int })
            == grammar::collect_elements(
            old(parser).source(),
            old(parser).pos as int,
            rule,
            old(parser).accepts_partial,
            close_conditions@,
            invalid_conditions@,
            warn_kind,
            Seq::empty(),
            Seq::empty(),
            true,
        ),
        r matches Ok(success) ==> elements_ok(
            element_views(success.item.0@),
            old(parser).accepts_partial,
        ),
    decreases old(parser).remaining(), 20int, 0int,
{
    let saved = parser.rule();
    parser.set_rule(rule);
    let mut elements: Vec<Element> = Vec::new();
    let mut exceptions: Vec<ParseWarning> = Vec::new();
    let mut paragraph_safe = true;
    let ghost src = parser.source();
    let ghost accepts = parser.accepts_partial;
    assert(element_views(elements@) =~= Seq::empty());
    loop
        invariant
            parser.wf(),
            parser.tokens == old(parser).tokens,
            parser.settings == old(parser).settings,
            parser.accepts_partial == old(parser).accepts_partial,
            parser.rule == rule,
            saved == old(parser).rule,
            parser.pos >= old(parser).pos,
            src == parser.source(),
            accepts == parser.accepts_partial,
            elements_ok(element_views(elements@), accepts),
            grammar::collect_elements(
                src,
                parser.pos as int,
                rule,
                accepts,
                close_conditions@,
                invalid_conditions@,
                warn_kind,
                element_views(elements@),
                exceptions@,
                paragraph_safe,
            ) == grammar::collect_elements(
                src,
                old(parser).pos as int,
                rule,
                accepts,
                close_conditions@,
                invalid_conditions@,
                warn_kind,
                Seq::empty(),
                Seq::empty(),
                true,
            ),
        decreases parser.remaining(),
    {
        let current = parser.current();
        if parser.evaluate_any(close_conditions) {
            let last = current.token;
            if last != Token::InputEnd {
                let _ = parser.step();
            }
            parser.set_rule(saved);
            return Ok(ParseSuccess { item: (elements, last), exceptions, paragraph_safe });
        }
        if parser.evaluate_any(invalid_conditions) {
            let warning = parser.make_warn(kind_or(warn_kind, ParseWarningKind::RuleFailed));
            parser.set_rule(saved);
            return Err(warning);
        }
        if current.token == Token::InputEnd {
            let warning = parser.make_warn(kind_or(warn_kind, ParseWarningKind::EndOfInput));
            parser.set_rule(saved);
            return Err(warning);
        }
        match consume(parser) {
            Ok(success) => {
                let ParseSuccess { item, exceptions: mut more, paragraph_safe: safe } = success;
                proof {
                    lemma_ok_concat(element_views(elements@), item@, accepts);
                }
                item.append_to(&mut elements);
                exceptions.append(&mut more);
                paragraph_safe = paragraph_safe && safe;
            },
            Err(warning) => {
                parser.set_rule(saved);
                return Err(warning);
            },
        }
    }
}

/// Consumes elements up to the first token that meets a condition of
/// `close`, and steps over that token.
pub fn collect_consume(
    parser: &mut Parser,
    rule: Rule,
    close_conditions: &[ParseCondition],
    invalid_conditions: &[ParseCondition],
    warn_kind: Option<ParseWarningKind>,
) -> (r: Result<ParseSuccess<Vec<Element>>, ParseWarning>)
    requires
        old(parser).wf(),
    ensures
        final(parser).wf(),
        final(parser).moved_from(old(parser)),
        final(parser).pos >= old(parser).pos,
        ({
            let out = grammar::collect_elements(
                old(parser).source(),
                old(parser).pos as int,
                rule,
                old(parser).accepts_partial,
                close_conditions@,
                invalid_conditions@,
                warn_kind,
                Seq::empty(),
                Seq::empty(),
                true,
            );
            &&& out.pos == final(parser).pos
            &&& match r {
                Ok(success) => out.result matches Ok(collected) && collected.item.0
                    == element_views(success.item@) && collected.exceptions == success.exceptions@
                    && collected.paragraph_safe == success.paragraph_safe,
                Err(warning) => out.result == Err::<
                    SpecSuccess<(Seq<SpecElement>, Token)>,
                    ParseWarning,
                >(warning),
            }
        }),
        r matches Ok(success) ==> elements_ok(
            element_views(success.item@),
            old(parser).accepts_partial,
        ),
    decreases old(parser).remaining(), 21int, 0int,
{
    match collect_consume_keep(parser, rule, close_conditions, invalid_conditions, warn_kind) {
        Ok(success) => Ok(
            ParseSuccess {
                item: success.item.0,
                exceptions: success.exceptions,
                paragraph_safe: success.paragraph_safe,
            },
        ),
        Err(warning) => Err(warning),
    }
}

/// Consumes elements into a container of the given kind.
///
/// The elements are collected as by [`collect_consume`]; no partial element
/// is welcome among them.
pub fn collect_container(
    parser: &mut Parser,
    rule: Rule,
    container_type: ContainerType,
    attributes: AttributeMap,
    close_conditions: &[ParseCondition],
    invalid_conditions: &[ParseCondition],
    warn_kind: Option<ParseWarningKind>,
) -> (r: Result<ParseSuccess<Elements>, ParseWarning>)
    requires
        old(parser).wf(),
        container_type.valid(),
    ensures
        final(parser).wf(),
        final(parser).moved_from(old(parser)),
        final(parser).pos >= old(parser).pos,
        r matches Ok(success) ==> success.item.one_at_most(),
        (Outcome { result: elements_result(r), pos: final(parser).pos as int })
            == grammar::container_of(
            grammar::collect_elements(
                old(parser).source(),
                old(parser).pos as int,
                rule,
                crate::parsing::parser::AcceptsPartial::Nothing,
                close_conditions@,
                invalid_conditions@,
                warn_kind,
                Seq::empty(),
                Seq::empty(),
                true,
            ),
            container_type,
            attributes@,
        ),
        r matches Ok(success) ==> elements_ok(success.item@, old(parser).accepts_partial)
            && crate::tree::valid::all_partial_free(success.item@),
    decreases old(parser).remaining(), 22int, 0int,
{
    let saved = parser.accepts_partial();
    parser.set_accepts_partial(crate::parsing::parser::AcceptsPartial::Nothing);
    let collected = collect_consume(
        parser,
        rule,
        close_conditions,
        invalid_conditions,
        warn_kind,
    );
    parser.set_accepts_partial(saved);
    match collected {
        Ok(success) => {
            let element = Element::Container {
                ctype: container_type,
                elements: success.item,
                attributes,
            };
            proof {
                assert(element@.valid());
                assert(element@.partial_free());
                assert(seq![element@][0] == element@);
            }
            Ok(
                ParseSuccess {
                    item: Elements::Single(element),
                    exceptions: success.exceptions,
                    paragraph_safe: container_type.paragraph_safe(),
                },
            )
        },
        Err(warning) => Err(warning),
    }
}

} // verus!
