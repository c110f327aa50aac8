//! The JSON renderer.

use crate::data::PageInfo;
use crate::render::json::compose::output_value;
use crate::render::json::model::output_json;
use crate::render::json::value::{
    compact_text, json_to_string, json_to_string_pretty, pretty_text,
};
use crate::settings::WikitextSettings;
use crate::tree::syntax_tree::{SpecSyntaxTree, SyntaxTree};
use vstd::prelude::*;

verus! {

/// The renderer that writes a syntax tree as JSON, together with the
/// settings and the page it was parsed with.
#[derive(Debug)]
pub struct JsonRender {
    /// Whether the output is indented.
    pub pretty: bool,
}

/// The text that the renderer writes for a tree.
pub open spec fn json_text_of(
    pretty: bool,
    tree: SpecSyntaxTree,
    page_info: PageInfo,
    settings: WikitextSettings,
) -> Seq<char> {
    if pretty {
        pretty_text(output_json(tree, page_info, settings))
    } else {
        compact_text(output_json(tree, page_info, settings))
    }
}

impl JsonRender {
    /// A renderer that indents its output.
    pub fn pretty() -> (r: Self)
        ensures
            r.pretty,
    {
        JsonRender { pretty: true }
    }

    /// A renderer that writes its output without spaces.
    pub fn compact() -> (r: Self)
        ensures
            !r.pretty,
    {
        JsonRender { pretty: false }
    }

    /// Writes the tree as JSON, together with the settings and the page.
    pub fn render(
        &self,
        syntax_tree: &SyntaxTree,
        page_info: &PageInfo,
        settings: &WikitextSettings,
    ) -> (r: String)
        ensures
            r@ == json_text_of(self.pretty, syntax_tree@, *page_info, *settings),
    {
        let output = output_value(syntax_tree, page_info, settings);

        let written = if self.pretty {
            json_to_string_pretty(&output)
        } else {
            json_to_string(&output)
        };
        match written {
            Ok(text) => text,
            Err(_) => {
                assert(false);
                String::new()
            },
        }
    }
}

/// Trees with the same value are written as the same JSON.
pub proof fn lemma_same_tree_same_json(
    pretty: bool,
    tree: SyntaxTree,
    copy: SyntaxTree,
    page_info: PageInfo,
    settings: WikitextSettings,
)
    requires
        copy@ == tree@,
    ensures
        json_text_of(pretty, copy@, page_info, settings) == json_text_of(
            pretty,
            tree@,
            page_info,
            settings,
        ),
{
}

} // verus!
