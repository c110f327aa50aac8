//! What is known about the page that is parsed or rendered.

use vstd::prelude::*;

verus! {

/// The page that a piece of wikitext belongs to.
#[derive(Debug, Clone, PartialEq, Eq)]
pub struct PageInfo {
    /// The name of the page, without its category.
    pub page: String,
    /// The category of the page; `None` for the default category.
    pub category: Option<String>,
    /// The name of the site.
    pub site: String,
    /// The title of the page.
    pub title: String,
    /// The alternate title of the page, if it has one.
    pub alt_title: Option<String>,
    /// The rating of the page.
    pub rating: i32,
    /// The tags of the page.
    pub tags: Vec<String>,
    /// The language of the page, which picks the messages of the host.
    pub language: String,
}

impl PageInfo {
    /// A page for use in examples.
    pub fn dummy() -> (r: PageInfo)
        ensures
            r.page@ == "some-page"@,
            r.category is None,
            r.site@ == "sandbox"@,
            r.title@ == "A page for the age"@,
            r.alt_title is None,
            r.rating == 69,
            r.tags@.len() == 2,
            r.tags@[0]@ == "tale"@,
            r.tags@[1]@ == "_cc"@,
            r.language@ == "default"@,
    {
        let mut tags: Vec<String> = Vec::new();
        tags.push(String::from_str("tale"));
        tags.push(String::from_str("_cc"));
        PageInfo {
            page: String::from_str("some-page"),
            category: None,
            site: String::from_str("sandbox"),
            title: String::from_str("A page for the age"),
            alt_title: None,
            rating: 69,
            tags,
            language: String::from_str("default"),
        }
    }
}

} // verus!
