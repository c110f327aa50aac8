//! What a renderer asks of the site.

use crate::text::str_eq;
use crate::tree::attribute::{AttributeMap, SpecAttributes};
use vstd::prelude::*;

verus! {

/// The output that a module is rendered for.
#[derive(Debug, Clone, Copy, PartialEq, Eq, Structural)]
pub enum ModuleRenderMode {
    Html,
    Text,
}

/// The site as the renderers see it: it answers from the question alone,
/// without knowing any page.
#[derive(Debug, Clone, Copy, PartialEq, Eq)]
pub struct Handle;

impl Handle {
    /// What a module is rendered as: its name in brackets.
    pub open spec fn module_output(
        &self,
        name: Seq<char>,
        arguments: SpecAttributes,
        body: Option<Seq<char>>,
        mode: ModuleRenderMode,
    ) -> Seq<char> {
        "[module "@ + name + "]"@
    }

    /// The title of the page that `url` points to: the URL itself.
    pub open spec fn page_title(&self, url: Seq<char>) -> Seq<char> {
        url
    }

    /// The message with the given key: in English, whatever the language.
    pub open spec fn message(&self, language: Seq<char>, key: Seq<char>) -> Seq<char> {
        if key == "collapsible-open"@ {
            "+ open block"@
        } else if key == "collapsible-hide"@ {
            "- hide block"@
        } else {
            ""@
        }
    }

    /// The URL of the given site: every site is hosted under one domain.
    pub open spec fn site_url(&self, site: Seq<char>) -> Seq<char> {
        "https://"@ + site + ".wikijump.com"@
    }

    /// Appends the rendering of a module to `buffer`.
    pub fn render_module(
        &self,
        buffer: &mut String,
        name: &str,
        arguments: &AttributeMap,
        body: &Option<String>,
        mode: ModuleRenderMode,
    )
        ensures
            final(buffer)@ == old(buffer)@ + self.module_output(
                name@,
                arguments@,
                crate::tree::clone::option_string_view(*body),
                mode,
            ),
    {
        let ghost before = buffer@;
        buffer.append("[module ");
        buffer.append(name);
        buffer.append("]");
        assert(buffer@ =~= before + ("[module "@ + name@ + "]"@));
    }

    /// The title of the page that `url` points to.
    pub fn get_page_title(&self, url: &str) -> (r: String)
        ensures
            r@ == self.page_title(url@),
    {
        String::from_str(url)
    }

    /// The message with the given key in the given language.
    pub fn get_message(&self, language: &str, key: &str) -> (r: String)
        ensures
            r@ == self.message(language@, key@),
    {
        if str_eq(key, "collapsible-open") {
            String::from_str("+ open block")
        } else if str_eq(key, "collapsible-hide") {
            String::from_str("- hide block")
        } else {
            String::from_str("")
        }
    }

    /// The URL of the given site.
    pub fn get_url(&self, site: &str) -> (r: String)
        ensures
            r@ == self.site_url(site@),
    {
        let mut url = String::from_str("https://");
        url.append(site);
        url.append(".wikijump.com");
        url
    }
}

} // verus!
