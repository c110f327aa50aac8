//! What holds of every element of a finished tree.

use crate::tree::element::{
    Element, SpecDefinitionListItem, SpecElement, SpecListItem, SpecPartialElement,
};
use crate::tree::link::SpecLinkLocation;
use crate::url::spec_url_valid;
use vstd::prelude::*;

verus! {

impl SpecElement {
    /// Whether the element and all elements below it are well formed:
    /// headings have a level from 1 to 6, repeated line breaks count at least
    /// one, nested lists are lists, and the URL of a link is not empty and
    /// is a path from the root of the site or starts with a known scheme.
    pub open spec fn valid(self) -> bool
        decreases self,
    {
        match self {
            SpecElement::Container { ctype, elements, attributes } => ctype.valid() && all_valid(
                elements,
            ),
            SpecElement::Anchor { elements, attributes, new_tab } => all_valid(elements),
            SpecElement::Link { target, label, new_tab, interwiki } => match target {
                SpecLinkLocation::Url(url) => spec_url_valid(url),
                SpecLinkLocation::Page { site, page } => true,
            },
            SpecElement::List { ltype, items } => forall|i: int|
                0 <= i < items.len() ==> (#[trigger] items[i]).valid(),
            SpecElement::DefinitionList(items) => forall|i: int|
                0 <= i < items.len() ==> (#[trigger] items[i]).valid(),
            SpecElement::Collapsible {
                elements,
                show_text,
                hide_text,
                show_top,
                show_bottom,
            } => all_valid(elements),
            SpecElement::Color { color, elements } => all_valid(elements),
            SpecElement::LineBreaks(count) => count >= 1,
            SpecElement::Partial(partial) => partial.valid(),
            _ => true,
        }
    }

    /// Whether neither the element nor any element below it is partial.
    pub open spec fn partial_free(self) -> bool
        decreases self,
    {
        match self {
            SpecElement::Container { ctype, elements, attributes } => all_partial_free(elements),
            SpecElement::Anchor { elements, attributes, new_tab } => all_partial_free(elements),
            SpecElement::List { ltype, items } => forall|i: int|
                0 <= i < items.len() ==> (#[trigger] items[i]).partial_free(),
            SpecElement::DefinitionList(items) => forall|i: int|
                0 <= i < items.len() ==> (#[trigger] items[i]).partial_free(),
            SpecElement::Collapsible {
                elements,
                show_text,
                hide_text,
                show_top,
                show_bottom,
            } => all_partial_free(elements),
            SpecElement::Color { color, elements } => all_partial_free(elements),
            SpecElement::Partial(partial) => false,
            _ => true,
        }
    }

    /// Whether the element is finished, or a partial element whose contents
    /// are finished.
    pub open spec fn partial_at_top_only(self) -> bool {
        match self {
            SpecElement::Partial(SpecPartialElement::RubyText { attributes, elements }) =>
                all_partial_free(elements),
            _ => self.partial_free(),
        }
    }
}

impl SpecListItem {
    /// Whether the item is well formed: a nested list is a list.
    pub open spec fn valid(self) -> bool
        decreases self,
    {
        match self {
            SpecListItem::Elements(elements) => all_valid(elements),
            SpecListItem::SubList(list) => *list is List && list.valid(),
        }
    }

    /// Whether no element of the item is partial.
    pub open spec fn partial_free(self) -> bool
        decreases self,
    {
        match self {
            SpecListItem::Elements(elements) => all_partial_free(elements),
            SpecListItem::SubList(list) => list.partial_free(),
        }
    }
}

impl SpecDefinitionListItem {
    /// Whether key and value are well formed, and the key is not empty.
    pub open spec fn valid(self) -> bool
        decreases self,
    {
        all_valid(self.key) && all_valid(self.value) && self.key.len() > 0
    }

    /// Whether no element of key and value is partial.
    pub open spec fn partial_free(self) -> bool
        decreases self,
    {
        all_partial_free(self.key) && all_partial_free(self.value)
    }
}

impl SpecPartialElement {
    /// Whether the contents are well formed.
    pub open spec fn valid(self) -> bool
        decreases self,
    {
        match self {
            SpecPartialElement::RubyText { attributes, elements } => all_valid(elements),
        }
    }
}

/// Whether every element of `elements` is well formed.
pub open spec fn all_valid(elements: Seq<SpecElement>) -> bool
    decreases elements,
{
    forall|i: int| 0 <= i < elements.len() ==> (#[trigger] elements[i]).valid()
}

/// Whether no element of `elements`, at any depth, is partial.
pub open spec fn all_partial_free(elements: Seq<SpecElement>) -> bool
    decreases elements,
{
    forall|i: int| 0 <= i < elements.len() ==> (#[trigger] elements[i]).partial_free()
}

/// Whether the only partial elements of `elements` stand at the top, with
/// finished contents.
pub open spec fn partial_at_top_only(elements: Seq<SpecElement>) -> bool {
    forall|i: int| 0 <= i < elements.len() ==> (#[trigger] elements[i]).partial_at_top_only()
}

impl Element {
    /// Whether this element may stand inside a paragraph.
    pub open spec fn spec_paragraph_safe(&self) -> bool {
        match self {
            Element::Container { ctype, .. } => ctype.spec_paragraph_safe(),
            Element::Text(_) | Element::Raw(_) | Element::Email(_) => true,
            Element::Anchor { .. } | Element::Link { .. } => true,
            Element::RadioButton { .. } | Element::CheckBox { .. } => true,
            Element::Color { .. } => true,
            Element::LineBreak | Element::LineBreaks(_) => true,
            _ => false,
        }
    }

    /// Whether this element may stand inside a paragraph.
    pub fn paragraph_safe(&self) -> (r: bool)
        ensures
            r == self.spec_paragraph_safe(),
    {
        match self {
            Element::Container { ctype, .. } => ctype.paragraph_safe(),
            Element::Text(_) | Element::Raw(_) | Element::Email(_) => true,
            Element::Anchor { .. } | Element::Link { .. } => true,
            Element::RadioButton { .. } | Element::CheckBox { .. } => true,
            Element::Color { .. } => true,
            Element::LineBreak | Element::LineBreaks(_) => true,
            _ => false,
        }
    }
}

} // verus!
