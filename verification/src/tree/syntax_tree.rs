//! The result of parsing a page.

use crate::parsing::result::ParseWarning;
use crate::tree::clone::{elements_to_owned, string_views, strings_to_owned};
use crate::tree::element::{element_views, Element, SpecElement};
use crate::tree::valid::{all_partial_free, all_valid};
use vstd::prelude::*;

verus! {

/// The mathematical value of a [`SyntaxTree`].
pub struct SpecSyntaxTree {
    pub elements: Seq<SpecElement>,
    pub styles: Seq<Seq<char>>,
    pub table_of_contents: Seq<SpecElement>,
    pub footnotes: Seq<Seq<SpecElement>>,
}

impl SpecSyntaxTree {
    /// Whether the tree is finished: every element of the page and of its
    /// footnotes is well formed, and no element is partial, at any depth.
    pub open spec fn finished(self) -> bool {
        &&& all_valid(self.elements)
        &&& all_partial_free(self.elements)
        &&& all_partial_free(self.table_of_contents)
        &&& forall|i: int|
            0 <= i < self.footnotes.len() ==> all_valid(#[trigger] self.footnotes[i])
                && all_partial_free(self.footnotes[i])
    }
}

/// A parsed page.
#[derive(Debug, PartialEq, Eq)]
pub struct SyntaxTree {
    /// The elements of the page, in order.
    pub elements: Vec<Element>,
    /// The style sheets that the page carries.
    pub styles: Vec<String>,
    /// The table of contents: one element per heading.
    pub table_of_contents: Vec<Element>,
    /// The contents of the footnotes, in the order of their numbers.
    pub footnotes: Vec<Vec<Element>>,
}

/// The values of the contents of footnotes.
pub open spec fn footnote_views(footnotes: Seq<Vec<Element>>) -> Seq<Seq<SpecElement>> {
    Seq::new(footnotes.len(), |i: int| element_views(footnotes[i]@))
}

impl View for SyntaxTree {
    type V = SpecSyntaxTree;

    open spec fn view(&self) -> SpecSyntaxTree {
        SpecSyntaxTree {
            elements: element_views(self.elements@),
            styles: string_views(self.styles@),
            table_of_contents: element_views(self.table_of_contents@),
            footnotes: footnote_views(self.footnotes@),
        }
    }
}

impl SyntaxTree {
    /// The tree made of the given parts, and the warnings that go with it.
    pub fn from_element_result(
        elements: Vec<Element>,
        warnings: Vec<ParseWarning>,
        styles: Vec<String>,
        table_of_contents: Vec<Element>,
        footnotes: Vec<Vec<Element>>,
    ) -> (r: (SyntaxTree, Vec<ParseWarning>))
        ensures
            r.0.elements == elements,
            r.0.styles == styles,
            r.0.table_of_contents == table_of_contents,
            r.0.footnotes == footnotes,
            r.1 == warnings,
    {
        (SyntaxTree { elements, styles, table_of_contents, footnotes }, warnings)
    }

    /// A deep copy of this tree, with the same value.
    pub fn to_owned(&self) -> (r: SyntaxTree)
        ensures
            r@ == self@,
    {
        let mut footnotes: Vec<Vec<Element>> = Vec::new();
        let mut i: usize = 0;
        while i < self.footnotes.len()
            invariant
                i <= self.footnotes.len(),
                footnotes@.len() == i,
                forall|j: int|
                    0 <= j < i ==> element_views((#[trigger] footnotes@[j])@) == element_views(
                        self.footnotes@[j]@,
                    ),
            decreases self.footnotes.len() - i,
        {
            footnotes.push(elements_to_owned(self.footnotes[i].as_slice()));
            i += 1;
        }
        assert(footnote_views(footnotes@) =~= footnote_views(self.footnotes@));
        SyntaxTree {
            elements: elements_to_owned(self.elements.as_slice()),
            styles: strings_to_owned(self.styles.as_slice()),
            table_of_contents: elements_to_owned(self.table_of_contents.as_slice()),
            footnotes,
        }
    }
}

} // verus!
