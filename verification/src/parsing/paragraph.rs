//! Gathering the elements of a page into paragraphs.

use crate::parsing::grammar;
use crate::parsing::grammar::Source;
use crate::parsing::parser::AcceptsPartial;
use crate::parsing::result::ParseWarning;
use crate::parsing::token::{ExtractedToken, Token};
use crate::settings::WikitextSettings;
use crate::text::reversed;
use crate::tree::container::ContainerType;
use crate::tree::element::{element_views, Element, SpecElement};
use crate::tree::valid::{all_partial_free, all_valid};
use vstd::prelude::*;

verus! {

/// `merged` with `element` added: text joins text that stands before it.
pub open spec fn merge_one(merged: Seq<SpecElement>, element: SpecElement) -> Seq<SpecElement> {
    if merged.len() > 0 {
        match (merged.last(), element) {
            (SpecElement::Text(before), SpecElement::Text(text)) => merged.drop_last().push(
                SpecElement::Text(before + text),
            ),
            _ => merged.push(element),
        }
    } else {
        merged.push(element)
    }
}

/// `elements` with every run of text elements joined into one.
pub open spec fn merge_text(elements: Seq<SpecElement>) -> Seq<SpecElement>
    decreases elements.len(),
{
    if elements.len() == 0 {
        Seq::empty()
    } else {
        merge_one(merge_text(elements.drop_last()), elements.last())
    }
}

/// The paragraph that `elements` make: nothing where there is no element,
/// else one container with the text among them merged.
pub open spec fn paragraph_of(elements: Seq<SpecElement>) -> Seq<SpecElement> {
    if elements.len() == 0 {
        Seq::empty()
    } else {
        seq![
            SpecElement::Container {
                ctype: ContainerType::Paragraph,
                elements: merge_text(elements),
                attributes: Seq::empty(),
            },
        ]
    }
}

/// The elements of a page and the warnings of its parse.
pub struct SpecPage {
    pub elements: Seq<SpecElement>,
    pub warnings: Seq<ParseWarning>,
}

/// The page from token `pos` on, after the finished elements `finished` and
/// the elements `paragraph` of the paragraph in progress. Elements are
/// consumed one after another up to the end of the input. Those that may
/// stand in a paragraph join the paragraph in progress; a paragraph break
/// and any other element end it, and the other element follows it.
pub open spec fn page_from(
    src: Source,
    pos: int,
    paragraph: Seq<SpecElement>,
    finished: Seq<SpecElement>,
    warnings: Seq<ParseWarning>,
) -> SpecPage
    decreases src.tokens.len() - pos,
{
    if pos < 0 || !src.has_next(pos) {
        SpecPage { elements: finished + paragraph_of(paragraph), warnings }
    } else if src.tokens[pos].token == Token::ParagraphBreak {
        page_from(src, pos + 1, Seq::empty(), finished + paragraph_of(paragraph), warnings)
    } else {
        let out = grammar::consume(src, pos, AcceptsPartial::Nothing);
        match out.result {
            Ok(success) => if pos < out.pos && src.has(out.pos) {
                if success.paragraph_safe {
                    page_from(
                        src,
                        out.pos,
                        paragraph + success.item,
                        finished,
                        warnings + success.exceptions,
                    )
                } else {
                    page_from(
                        src,
                        out.pos,
                        Seq::empty(),
                        finished + paragraph_of(paragraph) + success.item,
                        warnings + success.exceptions,
                    )
                }
            } else {
                SpecPage { elements: finished + paragraph_of(paragraph), warnings }
            },
            Err(warning) => SpecPage {
                elements: finished + paragraph_of(paragraph),
                warnings: warnings.push(warning),
            },
        }
    }
}

/// The page that `tokens` stand for under `settings`.
pub open spec fn page(tokens: Seq<ExtractedToken>, settings: WikitextSettings) -> SpecPage {
    page_from(Source { tokens, settings }, 0, Seq::empty(), Seq::empty(), Seq::empty())
}

/// Joins every run of text elements in `elements` into one.
pub fn merge_text_elements(elements: Vec<Element>) -> (r: Vec<Element>)
    ensures
        element_views(r@) == merge_text(element_views(elements@)),
        all_valid(element_views(elements@)) ==> all_valid(element_views(r@)),
        all_partial_free(element_views(elements@)) ==> all_partial_free(element_views(r@)),
{
    let ghost all = elements@;
    let ghost views = element_views(all);
    let mut stack = reversed(elements);
    let mut out: Vec<Element> = Vec::new();
    let ghost mut done: int = 0;
    proof {
        assert(views.subrange(0, 0) =~= Seq::<SpecElement>::empty());
        assert(element_views(out@) =~= Seq::<SpecElement>::empty());
    }
    while stack.len() > 0
        invariant
            views == element_views(all),
            0 <= done <= all.len(),
            stack@.len() == all.len() - done,
            forall|j: int| 0 <= j < stack@.len() ==> stack@[j] == all[all.len() - 1 - j],
            element_views(out@) == merge_text(views.subrange(0, done)),
            all_valid(views) ==> all_valid(element_views(out@)),
            all_partial_free(views) ==> all_partial_free(element_views(out@)),
        decreases stack@.len(),
    {
        let element = stack.pop().unwrap();
        let ghost before = out@;
        proof {
            assert(element == all[done]);
            assert(element@ == views[done]);
            assert(views.subrange(0, done + 1).drop_last() =~= views.subrange(0, done));
            assert(views.subrange(0, done + 1).last() == views[done]);
        }
        let merged = match element {
            Element::Text(text) => {
                match out.pop() {
                    Some(Element::Text(mut joined)) => {
                        joined.append(text.as_str());
                        Element::Text(joined)
                    },
                    Some(other) => {
                        out.push(other);
                        Element::Text(text)
                    },
                    None => Element::Text(text),
                }
            },
            other => other,
        };
        let ghost kept = out@;
        out.push(merged);
        proof {
            assert(element_views(out@) =~= merge_one(element_views(before), element@));
            assert forall|j: int| 0 <= j < out@.len() implies (all_valid(views) ==> (
            #[trigger] element_views(out@)[j]).valid()) && (all_partial_free(views)
                ==> element_views(out@)[j].partial_free()) by {
                if j < kept.len() {
                    assert(element_views(out@)[j] == element_views(before)[j]);
                } else {
                    assert(views[done].valid() ==> merged@.valid());
                }
            }
            done = done + 1;
        }
    }
    proof {
        assert(views.subrange(0, all.len() as int) =~= views);
    }
    out
}

} // verus!
