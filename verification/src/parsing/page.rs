//! Parsing a whole page.

use crate::parsing::consume::consume;
use crate::parsing::grammar::Source;
use crate::parsing::paragraph::{
    merge_text_elements, page, page_from, paragraph_of, SpecPage,
};
use crate::parsing::parser::{AcceptsPartial, Parser};
use crate::parsing::result::{lemma_views_push, ParseSuccess, ParseWarning};
use crate::parsing::toc::{build_table_of_contents, table_of_contents};
use crate::parsing::token::{ExtractedToken, Token};
use crate::parsing::tokenize::{lemma_tokens_parseable, tokenize, tokenizes, Tokenization};
use crate::preproc::whitespace::{normalized, substitute};
use crate::settings::WikitextSettings;
use crate::tree::attribute::AttributeMap;
use crate::tree::container::ContainerType;
use crate::tree::element::{element_views, Element, SpecElement};
use crate::tree::syntax_tree::SyntaxTree;
use crate::tree::valid::{all_partial_free, all_valid};
use vstd::prelude::*;

verus! {

/// Whether `elements` are well formed and finished.
pub open spec fn clean(elements: Seq<SpecElement>) -> bool {
    all_valid(elements) && all_partial_free(elements)
}

/// Clean elements stay clean when put in a row.
pub proof fn lemma_clean_concat(a: Seq<SpecElement>, b: Seq<SpecElement>)
    requires
        clean(a),
        clean(b),
    ensures
        clean(a + b),
{
    assert forall|i: int| 0 <= i < (a + b).len() implies (#[trigger] (a + b)[i]).valid() && (a
        + b)[i].partial_free() by {
        if i < a.len() {
            assert((a + b)[i] == a[i]);
        } else {
            assert((a + b)[i] == b[i - a.len()]);
        }
    }
}

/// Ends the paragraph in progress: its elements, if there are any, become a
/// paragraph at the end of `finished`.
fn end_paragraph(paragraph: Vec<Element>, finished: &mut Vec<Element>)
    requires
        clean(element_views(paragraph@)),
        clean(element_views(old(finished)@)),
    ensures
        element_views(final(finished)@) == element_views(old(finished)@) + paragraph_of(
            element_views(paragraph@),
        ),
        clean(element_views(final(finished)@)),
{
    if paragraph.len() == 0 {
        assert(element_views(finished@) + Seq::<SpecElement>::empty() =~= element_views(finished@));
        return ;
    }
    let merged = merge_text_elements(paragraph);
    let element = Element::Container {
        ctype: ContainerType::Paragraph,
        elements: merged,
        attributes: AttributeMap::new(),
    };
    proof {
        lemma_views_push(finished@, element);
        assert(element_views(finished@).push(element@) =~= element_views(finished@) + seq![
            element@,
        ]);
        assert(clean(seq![element@])) by {
            assert(element@.valid());
            assert(element@.partial_free());
        }
        lemma_clean_concat(element_views(finished@), seq![element@]);
    }
    finished.push(element);
}

/// Parses a tokenized page.
///
/// Every input gives a tree: a token that no rule matches becomes text, and
/// what went wrong on the way is told in the warnings. The tree is finished:
/// it holds no partial element, and every element of it is well formed. Its
/// table of contents has an entry for every heading at the top level.
#[verifier::rlimit(40)]
pub fn parse(tokenization: &Tokenization, settings: &WikitextSettings) -> (r: (
    SyntaxTree,
    Vec<ParseWarning>,
))
    ensures
        (SpecPage { elements: r.0@.elements, warnings: r.1@ }) == page(
            tokenization.spec_tokens(),
            *settings,
        ),
        r.0@.finished(),
        r.0@.styles.len() == 0,
        r.0@.table_of_contents == table_of_contents(r.0@.elements, 0, 0),
        r.0@.footnotes.len() == 0,
{
    let tokens = tokenization.tokens();
    let count = tokens.len();
    proof {
        lemma_tokens_parseable(tokenization.spec_full_text(), tokens@);
    }
    let mut parser = Parser::new(tokens, settings);
    let mut paragraph: Vec<Element> = Vec::new();
    let mut finished: Vec<Element> = Vec::new();
    let mut warnings: Vec<ParseWarning> = Vec::new();
    let ghost src = parser.source();
    proof {
        assert(element_views(paragraph@) =~= Seq::<SpecElement>::empty());
        assert(element_views(finished@) =~= Seq::<SpecElement>::empty());
    }
    loop
        invariant_except_break
            clean(element_views(paragraph@)),
            page_from(
                src,
                parser.pos as int,
                element_views(paragraph@),
                element_views(finished@),
                warnings@,
            ) == page(tokenization.spec_tokens(), *settings),
        invariant
            parser.wf(),
            parser.tokens == tokens,
            parser.settings == settings,
            parser.accepts_partial == AcceptsPartial::Nothing,
            src == parser.source(),
            src == (Source { tokens: tokenization.spec_tokens(), settings: *settings }),
            clean(element_views(finished@)),
        ensures
            clean(element_views(finished@)),
            (SpecPage { elements: element_views(finished@), warnings: warnings@ }) == page(
                tokenization.spec_tokens(),
                *settings,
            ),
        decreases parser.remaining(),
    {
        match parser.current().token {
            Token::InputEnd => {
                end_paragraph(paragraph, &mut finished);
                break ;
            },
            Token::ParagraphBreak => {
                end_paragraph(paragraph, &mut finished);
                paragraph = Vec::new();
                proof {
                    assert(element_views(paragraph@) =~= Seq::<SpecElement>::empty());
                }
                let _ = parser.step();
            },
            _ => {
                match consume(&mut parser) {
                    Ok(success) => {
                        let ParseSuccess { item, exceptions: mut more, paragraph_safe } = success;
                        warnings.append(&mut more);
                        proof {
                            assert(clean(item@));
                        }
                        if paragraph_safe {
                            proof {
                                lemma_clean_concat(element_views(paragraph@), item@);
                            }
                            item.append_to(&mut paragraph);
                        } else {
                            end_paragraph(paragraph, &mut finished);
                            paragraph = Vec::new();
                            proof {
                                assert(element_views(paragraph@) =~= Seq::<SpecElement>::empty());
                                lemma_clean_concat(element_views(finished@), item@);
                            }
                            item.append_to(&mut finished);
                        }
                    },
                    Err(warning) => {
                        warnings.push(warning);
                        end_paragraph(paragraph, &mut finished);
                        break ;
                    },
                }
            },
        }
    }
    let table = build_table_of_contents(finished.as_slice());
    let tree = SyntaxTree {
        elements: finished,
        styles: Vec::new(),
        table_of_contents: table,
        footnotes: Vec::new(),
    };
    proof {
        assert(tree@.footnotes =~= Seq::<Seq<SpecElement>>::empty());
        assert(tree@.styles =~= Seq::<Seq<char>>::empty());
    }
    (tree, warnings)
}

/// Parses wikitext: the text is normalized, split into tokens and parsed.
pub fn parse_wikitext(text: &str, settings: &WikitextSettings) -> (r: (
    SyntaxTree,
    Vec<ParseWarning>,
))
    ensures
        exists|tokens: Seq<ExtractedToken>| #[trigger]
            tokenizes(normalized(text@), tokens) && (SpecPage {
                elements: r.0@.elements,
                warnings: r.1@,
            }) == page(tokens, *settings),
        r.0@.finished(),
{
    let mut normal = String::from_str(text);
    substitute(&mut normal);
    let tokenization = tokenize(normal.as_str());
    let parsed = parse(&tokenization, settings);
    proof {
        assert(tokenizes(normalized(text@), tokenization.spec_tokens()));
    }
    parsed
}

} // verus!
