//! Nodes of the syntax tree.

use crate::tree::attribute::{AttributeMap, SpecAttributes};
use crate::tree::clone::{
    definition_items_to_owned, elements_to_owned, list_items_to_owned, option_string_to_owned,
    option_string_view, string_to_owned,
};
use crate::tree::container::{ContainerType, ListType};
use crate::tree::link::{LinkLabel, LinkLocation, SpecLinkLabel, SpecLinkLocation};
use vstd::prelude::*;

verus! {

/// The mathematical value of an [`Element`].
pub enum SpecElement {
    Container { ctype: ContainerType, elements: Seq<SpecElement>, attributes: SpecAttributes },
    Module { name: Seq<char>, arguments: SpecAttributes, body: Option<Seq<char>> },
    Text(Seq<char>),
    Raw(Seq<char>),
    Email(Seq<char>),
    Anchor { elements: Seq<SpecElement>, attributes: SpecAttributes, new_tab: bool },
    Link { target: SpecLinkLocation, label: SpecLinkLabel, new_tab: bool, interwiki: bool },
    List { ltype: ListType, items: Seq<SpecListItem> },
    DefinitionList(Seq<SpecDefinitionListItem>),
    RadioButton { name: Seq<char>, checked: bool, attributes: SpecAttributes },
    CheckBox { checked: bool, attributes: SpecAttributes },
    Collapsible {
        elements: Seq<SpecElement>,
        show_text: Option<Seq<char>>,
        hide_text: Option<Seq<char>>,
        show_top: bool,
        show_bottom: bool,
    },
    Color { color: Seq<char>, elements: Seq<SpecElement> },
    Code { contents: Seq<char>, language: Option<Seq<char>> },
    Html { contents: Seq<char> },
    Iframe { url: Seq<char>, attributes: SpecAttributes },
    LineBreak,
    LineBreaks(nat),
    HorizontalRule,
    Partial(SpecPartialElement),
}

/// The mathematical value of a [`ListItem`].
pub enum SpecListItem {
    Elements(Seq<SpecElement>),
    SubList(Box<SpecElement>),
}

/// The mathematical value of a [`DefinitionListItem`].
pub struct SpecDefinitionListItem {
    pub key: Seq<SpecElement>,
    pub value: Seq<SpecElement>,
}

/// The mathematical value of a [`PartialElement`].
pub enum SpecPartialElement {
    RubyText { attributes: SpecAttributes, elements: Seq<SpecElement> },
}

/// A node of the syntax tree.
#[derive(Debug, PartialEq, Eq)]
pub enum Element {
    /// Elements wrapped in a styled or structural container.
    Container { ctype: ContainerType, elements: Vec<Element>, attributes: AttributeMap },
    /// An embedded module, rendered by the host.
    Module { name: String, arguments: AttributeMap, body: Option<String> },
    /// Plain text.
    Text(String),
    /// Text that is emitted exactly as written.
    Raw(String),
    /// An e-mail address.
    Email(String),
    /// An `<a>` element with arbitrary attributes.
    Anchor { elements: Vec<Element>, attributes: AttributeMap, new_tab: bool },
    /// A link to a page or URL.
    Link { target: LinkLocation, label: LinkLabel, new_tab: bool, interwiki: bool },
    /// A bulleted, numbered or generic list.
    List { ltype: ListType, items: Vec<ListItem> },
    /// A list of key and value pairs.
    DefinitionList(Vec<DefinitionListItem>),
    /// A radio button.
    RadioButton { name: String, checked: bool, attributes: AttributeMap },
    /// A check box.
    CheckBox { checked: bool, attributes: AttributeMap },
    /// A block the reader can open and close.
    Collapsible {
        elements: Vec<Element>,
        show_text: Option<String>,
        hide_text: Option<String>,
        show_top: bool,
        show_bottom: bool,
    },
    /// Coloured elements.
    Color { color: String, elements: Vec<Element> },
    /// A block of source code.
    Code { contents: String, language: Option<String> },
    /// Raw HTML supplied by the author.
    Html { contents: String },
    /// An embedded frame.
    Iframe { url: String, attributes: AttributeMap },
    /// One line break.
    LineBreak,
    /// The given number of line breaks, at least one.
    LineBreaks(u32),
    /// A horizontal rule.
    HorizontalRule,
    /// An element that only an enclosing block can finish.
    Partial(PartialElement),
}

/// An item of a list.
#[derive(Debug, PartialEq, Eq)]
pub enum ListItem {
    /// The elements of one item.
    Elements(Vec<Element>),
    /// A nested list; the element is always an [`Element::List`].
    SubList(Box<Element>),
}

/// A key and value pair of a definition list.
#[derive(Debug, PartialEq, Eq)]
pub struct DefinitionListItem {
    pub key: Vec<Element>,
    pub value: Vec<Element>,
}

/// An element that is only meaningful inside a particular parent, which
/// replaces it by a finished element.
#[derive(Debug, PartialEq, Eq)]
pub enum PartialElement {
    /// The annotation of a ruby block.
    RubyText { attributes: AttributeMap, elements: Vec<Element> },
}

/// The values of a sequence of elements, in order.
pub open spec fn element_views(elements: Seq<Element>) -> Seq<SpecElement>
    decreases elements,
{
    Seq::new(
        elements.len(),
        |i: int|
            if 0 <= i < elements.len() {
                elements[i]@
            } else {
                SpecElement::LineBreak
            },
    )
}

/// The values of a sequence of list items, in order.
pub open spec fn list_item_views(items: Seq<ListItem>) -> Seq<SpecListItem>
    decreases items,
{
    Seq::new(
        items.len(),
        |i: int|
            if 0 <= i < items.len() {
                items[i]@
            } else {
                SpecListItem::Elements(Seq::empty())
            },
    )
}

/// The values of a sequence of definition list items, in order.
pub open spec fn definition_item_views(items: Seq<DefinitionListItem>) -> Seq<
    SpecDefinitionListItem,
>
    decreases items,
{
    Seq::new(
        items.len(),
        |i: int|
            if 0 <= i < items.len() {
                items[i]@
            } else {
                SpecDefinitionListItem { key: Seq::empty(), value: Seq::empty() }
            },
    )
}

impl View for Element {
    type V = SpecElement;

    open spec fn view(&self) -> SpecElement
        decreases self,
    {
        match self {
            Element::Container { ctype, elements, attributes } => SpecElement::Container {
                ctype: *ctype,
                elements: element_views(elements@),
                attributes: attributes@,
            },
            Element::Module { name, arguments, body } => SpecElement::Module {
                name: name@,
                arguments: arguments@,
                body: option_string_view(*body),
            },
            Element::Text(text) => SpecElement::Text(text@),
            Element::Raw(text) => SpecElement::Raw(text@),
            Element::Email(text) => SpecElement::Email(text@),
            Element::Anchor { elements, attributes, new_tab } => SpecElement::Anchor {
                elements: element_views(elements@),
                attributes: attributes@,
                new_tab: *new_tab,
            },
            Element::Link { target, label, new_tab, interwiki } => SpecElement::Link {
                target: target@,
                label: label@,
                new_tab: *new_tab,
                interwiki: *interwiki,
            },
            Element::List { ltype, items } => SpecElement::List {
                ltype: *ltype,
                items: list_item_views(items@),
            },
            Element::DefinitionList(items) => SpecElement::DefinitionList(
                definition_item_views(items@),
            ),
            Element::RadioButton { name, checked, attributes } => SpecElement::RadioButton {
                name: name@,
                checked: *checked,
                attributes: attributes@,
            },
            Element::CheckBox { checked, attributes } => SpecElement::CheckBox {
                checked: *checked,
                attributes: attributes@,
            },
            Element::Collapsible {
                elements,
                show_text,
                hide_text,
                show_top,
                show_bottom,
            } => SpecElement::Collapsible {
                elements: element_views(elements@),
                show_text: option_string_view(*show_text),
                hide_text: option_string_view(*hide_text),
                show_top: *show_top,
                show_bottom: *show_bottom,
            },
            Element::Color { color, elements } => SpecElement::Color {
                color: color@,
                elements: element_views(elements@),
            },
            Element::Code { contents, language } => SpecElement::Code {
                contents: contents@,
                language: option_string_view(*language),
            },
            Element::Html { contents } => SpecElement::Html { contents: contents@ },
            Element::Iframe { url, attributes } => SpecElement::Iframe {
                url: url@,
                attributes: attributes@,
            },
            Element::LineBreak => SpecElement::LineBreak,
            Element::LineBreaks(count) => SpecElement::LineBreaks(*count as nat),
            Element::HorizontalRule => SpecElement::HorizontalRule,
            Element::Partial(partial) => SpecElement::Partial(partial@),
        }
    }
}

impl View for ListItem {
    type V = SpecListItem;

    open spec fn view(&self) -> SpecListItem
        decreases self,
    {
        match self {
            ListItem::Elements(elements) => SpecListItem::Elements(element_views(elements@)),
            ListItem::SubList(list) => SpecListItem::SubList(Box::new((**list)@)),
        }
    }
}

impl View for DefinitionListItem {
    type V = SpecDefinitionListItem;

    open spec fn view(&self) -> SpecDefinitionListItem
        decreases self,
    {
        SpecDefinitionListItem {
            key: element_views(self.key@),
            value: element_views(self.value@),
        }
    }
}

impl View for PartialElement {
    type V = SpecPartialElement;

    open spec fn view(&self) -> SpecPartialElement
        decreases self,
    {
        match self {
            PartialElement::RubyText { attributes, elements } => SpecPartialElement::RubyText {
                attributes: attributes@,
                elements: element_views(elements@),
            },
        }
    }
}

impl Element {
    /// A deep copy of this element, with the same value.
    pub fn to_owned(&self) -> (r: Element)
        ensures
            r@ == self@,
        decreases self,
    {
        match self {
            Element::Container { ctype, elements, attributes } => Element::Container {
                ctype: *ctype,
                elements: elements_to_owned(elements.as_slice()),
                attributes: attributes.to_owned(),
            },
            Element::Module { name, arguments, body } => Element::Module {
                name: string_to_owned(name),
                arguments: arguments.to_owned(),
                body: option_string_to_owned(body),
            },
            Element::Text(text) => Element::Text(string_to_owned(text)),
            Element::Raw(text) => Element::Raw(string_to_owned(text)),
            Element::Email(text) => Element::Email(string_to_owned(text)),
            Element::Anchor { elements, attributes, new_tab } => Element::Anchor {
                elements: elements_to_owned(elements.as_slice()),
                attributes: attributes.to_owned(),
                new_tab: *new_tab,
            },
            Element::Link { target, label, new_tab, interwiki } => Element::Link {
                target: target.to_owned(),
                label: label.to_owned(),
                new_tab: *new_tab,
                interwiki: *interwiki,
            },
            Element::List { ltype, items } => Element::List {
                ltype: *ltype,
                items: list_items_to_owned(items.as_slice()),
            },
            Element::DefinitionList(items) => Element::DefinitionList(
                definition_items_to_owned(items.as_slice()),
            ),
            Element::RadioButton { name, checked, attributes } => Element::RadioButton {
                name: string_to_owned(name),
                checked: *checked,
                attributes: attributes.to_owned(),
            },
            Element::CheckBox { checked, attributes } => Element::CheckBox {
                checked: *checked,
                attributes: attributes.to_owned(),
            },
            Element::Collapsible {
                elements,
                show_text,
                hide_text,
                show_top,
                show_bottom,
            } => Element::Collapsible {
                elements: elements_to_owned(elements.as_slice()),
                show_text: option_string_to_owned(show_text),
                hide_text: option_string_to_owned(hide_text),
                show_top: *show_top,
                show_bottom: *show_bottom,
            },
            Element::Color { color, elements } => Element::Color {
                color: string_to_owned(color),
                elements: elements_to_owned(elements.as_slice()),
            },
            Element::Code { contents, language } => Element::Code {
                contents: string_to_owned(contents),
                language: option_string_to_owned(language),
            },
            Element::Html { contents } => Element::Html { contents: string_to_owned(contents) },
            Element::Iframe { url, attributes } => Element::Iframe {
                url: string_to_owned(url),
                attributes: attributes.to_owned(),
            },
            Element::LineBreak => Element::LineBreak,
            Element::LineBreaks(count) => Element::LineBreaks(*count),
            Element::HorizontalRule => Element::HorizontalRule,
            Element::Partial(partial) => Element::Partial(partial.to_owned()),
        }
    }
}

impl ListItem {
    /// A deep copy of this item, with the same value.
    pub fn to_owned(&self) -> (r: ListItem)
        ensures
            r@ == self@,
        decreases self,
    {
        match self {
            ListItem::Elements(elements) => ListItem::Elements(
                elements_to_owned(elements.as_slice()),
            ),
            ListItem::SubList(list) => {
                let inner: &Element = &**list;
                ListItem::SubList(Box::new(inner.to_owned()))
            },
        }
    }
}

impl DefinitionListItem {
    /// A deep copy of this item, with the same value.
    pub fn to_owned(&self) -> (r: DefinitionListItem)
        ensures
            r@ == self@,
        decreases self,
    {
        DefinitionListItem {
            key: elements_to_owned(self.key.as_slice()),
            value: elements_to_owned(self.value.as_slice()),
        }
    }
}

impl PartialElement {
    /// A deep copy of this element, with the same value.
    pub fn to_owned(&self) -> (r: PartialElement)
        ensures
            r@ == self@,
        decreases self,
    {
        match self {
            PartialElement::RubyText { attributes, elements } => PartialElement::RubyText {
                attributes: attributes.to_owned(),
                elements: elements_to_owned(elements.as_slice()),
            },
        }
    }
}

} // verus!
