//! The plain text renderer.

use crate::data::PageInfo;
use crate::render::handle::Handle;
use crate::render::text::context::{TextContext, TextState};
use crate::render::text::elements::{render_elements, render_seq};
use crate::settings::WikitextSettings;
use crate::text::{strip_newlines, without_outer_newlines};
use crate::tree::element::{element_views, Element, SpecElement};
use crate::tree::syntax_tree::SyntaxTree;
use vstd::prelude::*;

verus! {

/// The plain text that `elements` show as on the page `page_info`: the
/// elements rendered one after another, without the newlines at both ends.
pub open spec fn text_of(elements: Seq<SpecElement>, page_info: PageInfo) -> Seq<char> {
    without_outer_newlines(
        render_seq(
            &Handle,
            page_info.site@,
            page_info.language@,
            elements,
            0,
            TextState::start(),
        ).output,
    )
}

/// The renderer that turns a syntax tree into plain text.
#[derive(Debug)]
pub struct TextRender;

impl TextRender {
    /// Renders elements that are not a whole page.
    pub fn render_partial(
        &self,
        elements: &[Element],
        page_info: &PageInfo,
        settings: &WikitextSettings,
    ) -> (r: String)
        ensures
            r@ == text_of(element_views(elements@), *page_info),
    {
        let table_of_contents: [Element; 0] = [];
        let footnotes: [Vec<Element>; 0] = [];
        self.render_partial_direct(
            elements,
            page_info,
            settings,
            table_of_contents.as_slice(),
            footnotes.as_slice(),
        )
    }

    /// Renders elements, given the table of contents and the footnotes of
    /// the page that they belong to.
    pub fn render_partial_direct(
        &self,
        elements: &[Element],
        page_info: &PageInfo,
        settings: &WikitextSettings,
        table_of_contents: &[Element],
        footnotes: &[Vec<Element>],
    ) -> (r: String)
        ensures
            r@ == text_of(element_views(elements@), *page_info),
    {
        let handle = Handle;
        let mut ctx = TextContext::new(page_info, &handle, settings, table_of_contents, footnotes);
        render_elements(&mut ctx, elements);

        let output = ctx.into_output();
        strip_newlines(output.as_str())
    }

    /// Renders a page.
    pub fn render(&self, tree: &SyntaxTree, page_info: &PageInfo, settings: &WikitextSettings) -> (r:
        String)
        ensures
            r@ == text_of(tree@.elements, *page_info),
    {
        self.render_partial_direct(
            tree.elements.as_slice(),
            page_info,
            settings,
            tree.table_of_contents.as_slice(),
            tree.footnotes.as_slice(),
        )
    }
}

} // verus!
