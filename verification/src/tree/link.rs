//! Where a link points and what it shows.

use vstd::prelude::*;

verus! {

/// The mathematical value of a [`LinkLabel`].
pub enum SpecLinkLabel {
    Text(Seq<char>),
    Url(Option<Seq<char>>),
    Page,
}

/// What a link displays.
#[derive(Debug, Clone, PartialEq, Eq)]
pub enum LinkLabel {
    /// Custom text chosen by the author.
    Text(String),
    /// A label that mirrors the URL: the whole URL when `None`, otherwise the
    /// given part of it.
    Url(Option<String>),
    /// The title of the page the link points to.
    Page,
}

impl View for LinkLabel {
    type V = SpecLinkLabel;

    open spec fn view(&self) -> SpecLinkLabel {
        match self {
            LinkLabel::Text(text) => SpecLinkLabel::Text(text@),
            LinkLabel::Url(Some(url)) => SpecLinkLabel::Url(Some(url@)),
            LinkLabel::Url(None) => SpecLinkLabel::Url(None),
            LinkLabel::Page => SpecLinkLabel::Page,
        }
    }
}

impl LinkLabel {
    /// A copy of this label that shares nothing with `self`.
    pub fn to_owned(&self) -> (r: LinkLabel)
        ensures
            r@ == self@,
    {
        match self {
            LinkLabel::Text(text) => LinkLabel::Text(crate::tree::clone::string_to_owned(text)),
            LinkLabel::Url(url) => LinkLabel::Url(crate::tree::clone::option_string_to_owned(url)),
            LinkLabel::Page => LinkLabel::Page,
        }
    }
}

/// The mathematical value of a [`LinkLocation`].
pub enum SpecLinkLocation {
    Page { site: Option<Seq<char>>, page: Seq<char> },
    Url(Seq<char>),
}

/// Where a link points.
#[derive(Debug, Clone, PartialEq, Eq)]
pub enum LinkLocation {
    /// A page, on this site when `site` is `None`.
    Page { site: Option<String>, page: String },
    /// A URL: absolute, or a path that starts with `/`.
    Url(String),
}

impl View for LinkLocation {
    type V = SpecLinkLocation;

    open spec fn view(&self) -> SpecLinkLocation {
        match self {
            LinkLocation::Page { site: Some(site), page } => SpecLinkLocation::Page {
                site: Some(site@),
                page: page@,
            },
            LinkLocation::Page { site: None, page } => SpecLinkLocation::Page {
                site: None,
                page: page@,
            },
            LinkLocation::Url(url) => SpecLinkLocation::Url(url@),
        }
    }
}

impl LinkLocation {
    /// A copy of this location that shares nothing with `self`.
    pub fn to_owned(&self) -> (r: LinkLocation)
        ensures
            r@ == self@,
    {
        match self {
            LinkLocation::Page { site, page } => LinkLocation::Page {
                site: crate::tree::clone::option_string_to_owned(site),
                page: crate::tree::clone::string_to_owned(page),
            },
            LinkLocation::Url(url) => LinkLocation::Url(crate::tree::clone::string_to_owned(url)),
        }
    }
}

} // verus!
