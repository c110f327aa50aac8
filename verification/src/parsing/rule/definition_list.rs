//! The rules for definition lists: rows of the form `: key : value`.

use crate::parsing::collect::{collect_consume, collect_consume_keep};
use crate::parsing::consume::single;
use crate::parsing::grammar;
use crate::parsing::grammar::{elements_ok, Source};
use crate::parsing::parser::{
    fail_at, kind_at, succeed_at, AcceptsPartial, ParseCondition, Parser,
};
use crate::parsing::result::{
    elements_result, Elements, Outcome, ParseSuccess, ParseWarning, ParseWarningKind, Rule,
    SpecSuccess,
};
use crate::parsing::token::Token;
use crate::text::{
    all_space, char_is_space, chars_of, is_trimmed_by, lemma_trimmed_by_unique, trimmed_by,
};
use crate::tree::element::{
    definition_item_views, element_views, DefinitionListItem, Element, SpecDefinitionListItem,
    SpecElement,
};
use crate::tree::valid::{all_partial_free, all_valid};
use vstd::prelude::*;

verus! {

/// What ends the key of a row: a space that a colon follows.
pub open spec fn key_close() -> Seq<ParseCondition> {
    seq![ParseCondition::TokenPair(Token::Whitespace, Token::Colon)]
}

/// What a key cannot hold: the end of the line.
pub open spec fn key_invalid() -> Seq<ParseCondition> {
    seq![
        ParseCondition::CurrentToken(Token::ParagraphBreak),
        ParseCondition::CurrentToken(Token::LineBreak),
    ]
}

/// What ends the value of a row: the end of the line.
pub open spec fn value_close() -> Seq<ParseCondition> {
    seq![
        ParseCondition::CurrentToken(Token::ParagraphBreak),
        ParseCondition::CurrentToken(Token::LineBreak),
        ParseCondition::CurrentToken(Token::InputEnd),
    ]
}

/// Whether an element shows as nothing but space: a line break, or text
/// made of whitespace.
pub open spec fn is_blank(element: SpecElement) -> bool {
    match element {
        SpecElement::LineBreak | SpecElement::LineBreaks(_) => true,
        SpecElement::Text(text) => all_space(text, 0, text.len() as int),
        _ => false,
    }
}

/// `elements` without the blank elements at its ends.
pub open spec fn stripped(elements: Seq<SpecElement>) -> Seq<SpecElement> {
    trimmed_by(elements, |element: SpecElement| is_blank(element))
}

/// The rule that keeps a newline before a row of a definition list from
/// becoming a line break: it matches a newline that `: ` follows, and gives
/// nothing.
pub open spec fn newline_skipped(src: Source, pos: int, rule: Rule) -> Outcome<Seq<SpecElement>> {
    if kind_at(src.tokens, pos) == Some(Token::LineBreak) && kind_at(src.tokens, pos + 1) == Some(
        Token::Colon,
    ) && kind_at(src.tokens, pos + 2) == Some(Token::Whitespace) {
        succeed_at(Seq::empty(), true, pos)
    } else {
        fail_at(src.tokens, pos, rule, ParseWarningKind::RuleFailed)
    }
}

/// Whether `text` is made of whitespace alone.
pub fn text_is_blank(text: &str) -> (r: bool)
    ensures
        r == all_space(text@, 0, text@.len() as int),
{
    let chars = chars_of(text);
    let mut i: usize = 0;
    while i < chars.len()
        invariant
            i <= chars.len(),
            chars@ == text@,
            all_space(chars@, 0, i as int),
        decreases chars.len() - i,
    {
        if !char_is_space(chars[i]) {
            assert(!crate::text::is_space(text@[i as int]));
            return false;
        }
        i += 1;
    }
    true
}

/// Whether an element shows as nothing but space.
pub fn element_is_blank(element: &Element) -> (r: bool)
    ensures
        r == is_blank(element@),
{
    match element {
        Element::LineBreak | Element::LineBreaks(_) => true,
        Element::Text(text) => text_is_blank(text.as_str()),
        _ => false,
    }
}

/// Removes the blank elements at both ends of `elements`.
pub fn strip_whitespace(elements: &mut Vec<Element>)
    ensures
        element_views(final(elements)@) == stripped(element_views(old(elements)@)),
        exists|s: int, e: int|
            0 <= s <= e <= old(elements)@.len() && final(elements)@ == old(elements)@.subrange(s, e),
{
    let ghost views = element_views(elements@);
    let mut start: usize = 0;
    while start < elements.len() && element_is_blank(&elements[start])
        invariant
            start <= elements.len(),
            views == element_views(elements@),
            forall|i: int| 0 <= i < start ==> is_blank(#[trigger] views[i]),
        decreases elements.len() - start,
    {
        start += 1;
    }
    let mut end: usize = elements.len();
    while end > start && element_is_blank(&elements[end - 1])
        invariant
            start <= end <= elements.len(),
            views == element_views(elements@),
            forall|i: int| end <= i < views.len() ==> is_blank(#[trigger] views[i]),
        decreases end,
    {
        end -= 1;
    }
    proof {
        let class = |element: SpecElement| is_blank(element);
        assert(is_trimmed_by(views, class, start as int, end as int));
        lemma_trimmed_by_unique(views, class, start as int, end as int);
    }
    elements.truncate(end);
    let kept = elements.split_off(start);
    *elements = kept;
    proof {
        assert(elements@ =~= old(elements)@.subrange(start as int, end as int));
        assert(element_views(elements@) =~= views.subrange(start as int, end as int));
    }
}

/// The rule that keeps a newline before a row of a definition list from
/// becoming a line break.
pub fn skip_newline(parser: &mut Parser) -> (r: Result<ParseSuccess<Elements>, ParseWarning>)
    requires
        old(parser).wf(),
    ensures
        *final(parser) == *old(parser),
        r matches Ok(success) ==> success.item.one_at_most(),
        (Outcome { result: elements_result(r), pos: final(parser).pos as int }) == newline_skipped(
            old(parser).source(),
            old(parser).pos as int,
            old(parser).rule,
        ),
        r matches Ok(success) ==> elements_ok(success.item@, old(parser).accepts_partial),
{
    match parser.next_three_tokens() {
        (Token::LineBreak, Some(Token::Colon), Some(Token::Whitespace)) => Ok(
            ParseSuccess { item: Elements::Empty, exceptions: Vec::new(), paragraph_safe: true },
        ),
        _ => Err(parser.make_warn(ParseWarningKind::RuleFailed)),
    }
}

/// The value of the result of parsing one row.
pub open spec fn item_result(
    result: Result<ParseSuccess<(DefinitionListItem, bool)>, ParseWarning>,
) -> Result<SpecSuccess<(SpecDefinitionListItem, bool)>, ParseWarning> {
    match result {
        Ok(success) => Ok(
            SpecSuccess {
                item: (success.item.0@, success.item.1),
                exceptions: success.exceptions@,
                paragraph_safe: success.paragraph_safe,
            },
        ),
        Err(warning) => Err(warning),
    }
}

/// A part of elements that are well formed and finished is so too.
proof fn lemma_subrange_ok(elements: Seq<Element>, kept: Seq<Element>)
    requires
        all_valid(element_views(elements)),
        all_partial_free(element_views(elements)),
        exists|s: int, e: int| 0 <= s <= e <= elements.len() && kept == elements.subrange(s, e),
    ensures
        all_valid(element_views(kept)),
        all_partial_free(element_views(kept)),
{
    let (s, e) = choose|s: int, e: int|
        0 <= s <= e <= elements.len() && kept == elements.subrange(s, e);
    assert forall|i: int| 0 <= i < element_views(kept).len() implies (#[trigger] element_views(
        kept,
    )[i]).valid() && element_views(kept)[i].partial_free() by {
        assert(element_views(kept)[i] == element_views(elements)[s + i]);
    }
}

/// Parses a definition list; the cursor is at the colon of its first row.
#[verifier::rlimit(40)]
pub fn parse_definition_list(parser: &mut Parser) -> (r: Result<
    ParseSuccess<Elements>,
    ParseWarning,
>)
    requires
        old(parser).wf(),
    ensures
        final(parser).wf(),
        final(parser).moved_from(old(parser)),
        final(parser).pos >= old(parser).pos,
        r matches Ok(success) ==> success.item.one_at_most(),
        (Outcome { result: elements_result(r), pos: final(parser).pos as int })
            == grammar::definition_list(
            old(parser).source(),
            old(parser).pos as int,
            old(parser).rule,
        ),
        r matches Ok(success) ==> elements_ok(success.item@, old(parser).accepts_partial),
    decreases old(parser).remaining(), 16int, 0int,
{
    let mut items: Vec<DefinitionListItem> = Vec::new();
    let ghost src = parser.source();
    let ghost rule = parser.rule;

    let (item, mut at_end) = match parse_item(parser) {
        Ok(success) => success.item,
        Err(warning) => {
            return Err(warning);
        },
    };
    items.push(item);
    assert(definition_item_views(items@) =~= seq![item@]);

    loop
        invariant
            parser.wf(),
            parser.moved_from(old(parser)),
            parser.pos > old(parser).pos,
            parser.rule == rule,
            src == parser.source(),
            forall|i: int|
                0 <= i < items@.len() ==> (#[trigger] definition_item_views(items@)[i]).valid()
                    && definition_item_views(items@)[i].partial_free(),
            grammar::definition_rows(
                src,
                parser.pos as int,
                rule,
                definition_item_views(items@),
                at_end,
            ) == grammar::definition_list(src, old(parser).pos as int, rule),
        ensures
            parser.wf(),
            parser.moved_from(old(parser)),
            parser.pos > old(parser).pos,
            forall|i: int|
                0 <= i < items@.len() ==> (#[trigger] definition_item_views(items@)[i]).valid()
                    && definition_item_views(items@)[i].partial_free(),
            succeed_at(
                seq![SpecElement::DefinitionList(definition_item_views(items@))],
                false,
                parser.pos as int,
            ) == grammar::definition_list(src, old(parser).pos as int, rule),
        decreases parser.remaining(),
    {
        if at_end {
            break ;
        }
        let mut sub_parser = *parser;
        match parse_item(&mut sub_parser) {
            Ok(success) => {
                let ghost before = items@;
                let (item, ends) = success.item;
                items.push(item);
                proof {
                    assert(definition_item_views(items@) =~= definition_item_views(before).push(
                        item@,
                    ));
                }
                parser.update(&sub_parser);
                at_end = ends;
            },
            Err(_) => {
                break ;
            },
        }
    }

    let element = Element::DefinitionList(items);
    proof {
        assert(seq![element@][0] == element@);
        assert(element@.valid());
        assert(element@.partial_free());
    }
    Ok(single(element))
}

/// Parses one row of a definition list.
#[verifier::rlimit(40)]
pub fn parse_item(parser: &mut Parser) -> (r: Result<
    ParseSuccess<(DefinitionListItem, bool)>,
    ParseWarning,
>)
    requires
        old(parser).wf(),
    ensures
        final(parser).wf(),
        final(parser).moved_from(old(parser)),
        final(parser).pos >= old(parser).pos,
        r is Ok ==> final(parser).pos > old(parser).pos,
        (Outcome { result: item_result(r), pos: final(parser).pos as int })
            == grammar::definition_item(
            old(parser).source(),
            old(parser).pos as int,
            old(parser).rule,
        ),
        r matches Ok(success) ==> success.item.0@.valid() && success.item.0@.partial_free(),
    decreases old(parser).remaining(), 14int, 0int,
{
    let mut exceptions: Vec<ParseWarning> = Vec::new();
    let rule = parser.rule();
    let saved = parser.accepts_partial();

    if !parser.start_of_line() {
        return Err(parser.make_warn(ParseWarningKind::RuleFailed));
    }

    match parser.next_two_tokens() {
        (Token::Colon, Some(Token::Whitespace)) => {},
        _ => {
            return Err(parser.make_warn(ParseWarningKind::RuleFailed));
        },
    }
    let _ = parser.step_n(2);
    parser.set_accepts_partial(AcceptsPartial::Nothing);

    let key_close = [ParseCondition::token_pair(Token::Whitespace, Token::Colon)];
    let key_invalid = [
        ParseCondition::current(Token::ParagraphBreak),
        ParseCondition::current(Token::LineBreak),
    ];
    assert(key_close@ =~= self::key_close());
    assert(key_invalid@ =~= self::key_invalid());
    let collected = collect_consume(parser, rule, key_close.as_slice(), key_invalid.as_slice(), None);
    parser.set_accepts_partial(saved);
    let mut key = match collected {
        Ok(success) => {
            let ParseSuccess { item, exceptions: mut more, paragraph_safe: _ } = success;
            exceptions.append(&mut more);
            item
        },
        Err(warning) => {
            return Err(warning);
        },
    };
    let ghost key_before = key@;
    strip_whitespace(&mut key);
    proof {
        lemma_subrange_ok(key_before, key@);
    }
    if key.len() == 0 {
        return Err(parser.make_warn(ParseWarningKind::RuleFailed));
    }
    match parser.step() {
        Ok(_) => {},
        Err(warning) => {
            return Err(warning);
        },
    }
    parser.set_accepts_partial(AcceptsPartial::Nothing);

    let value_close = [
        ParseCondition::current(Token::ParagraphBreak),
        ParseCondition::current(Token::LineBreak),
        ParseCondition::current(Token::InputEnd),
    ];
    let value_invalid: [ParseCondition; 0] = [];
    assert(value_close@ =~= self::value_close());
    assert(value_invalid@ =~= Seq::<ParseCondition>::empty());
    let collected = collect_consume_keep(
        parser,
        rule,
        value_close.as_slice(),
        value_invalid.as_slice(),
        None,
    );
    parser.set_accepts_partial(saved);
    let (mut value, last) = match collected {
        Ok(success) => {
            let ParseSuccess { item, exceptions: mut more, paragraph_safe: _ } = success;
            exceptions.append(&mut more);
            item
        },
        Err(warning) => {
            return Err(warning);
        },
    };

    let should_break = last != Token::LineBreak;
    let ghost value_before = value@;
    strip_whitespace(&mut value);
    proof {
        lemma_subrange_ok(value_before, value@);
    }

    let item = DefinitionListItem { key, value };
    Ok(ParseSuccess { item: (item, should_break), exceptions, paragraph_safe: false })
}

} // verus!
