//! Building the JSON form of a syntax tree.

use crate::data::PageInfo;
use crate::render::json::model::{
    attribute_members, attributes_json, container_type_json, definition_item_json,
    definition_items_json, element_json, elements_json, label_json, list_item_json,
    list_items_json, location_json, none, optional_text, output_json,
    page_info_json, plain, settings_json, tagged, texts_json, tree_json,
};
use crate::render::json::value::{
    json_array, json_bool, json_insert, json_integer, json_members, json_null, json_object,
    json_of, json_real, json_text, jsons_of, members_of, put, Json,
};
use crate::settings::WikitextSettings;
use crate::tree::attribute::AttributeMap;
use crate::tree::clone::{option_string_view, string_views};
use crate::tree::container::ContainerType;
use crate::tree::element::{
    definition_item_views, element_views, list_item_views, DefinitionListItem, Element, ListItem,
    PartialElement,
};
use crate::tree::link::{LinkLabel, LinkLocation};
use crate::tree::syntax_tree::{SyntaxTree};
use serde_json::Value;
use vstd::prelude::*;

verus! {

/// A JSON object that is being built.
pub struct Object {
    members: serde_json::Map<String, Value>,
}

impl Object {
    /// The members of the object so far.
    pub closed spec fn view(&self) -> Seq<(Seq<char>, Json)> {
        members_of(self.members)
    }

    /// An object without members.
    pub fn new() -> (r: Object)
        ensures
            r@ == none(),
    {
        Object { members: json_members() }
    }

    /// The object with `value` stored under `key`.
    pub fn with(self, key: &str, value: Value) -> (r: Object)
        ensures
            r@ == put(self@, key@, json_of(value)),
    {
        let mut members = self.members;
        json_insert(&mut members, key, value);
        Object { members }
    }

    /// The finished object.
    pub fn finish(self) -> (r: Value)
        ensures
            json_of(r) == Json::Object(self@),
    {
        json_object(self.members)
    }
}

/// A text, or `null` where there is none.
pub fn optional_text_value(text: &Option<String>) -> (r: Value)
    ensures
        json_of(r) == optional_text(option_string_view(*text)),
{
    match text {
        Some(text) => json_text(text.as_str()),
        None => json_null(),
    }
}

/// An array of texts.
pub fn texts_value(texts: &[String]) -> (r: Value)
    ensures
        json_of(r) == texts_json(string_views(texts@)),
{
    let mut values: Vec<Value> = Vec::new();
    let mut i: usize = 0;
    while i < texts.len()
        invariant
            i <= texts.len(),
            values@.len() == i,
            forall|j: int| 0 <= j < i ==> json_of(#[trigger] values@[j]) == Json::Text(texts@[j]@),
        decreases texts.len() - i,
    {
        values.push(json_text(texts[i].as_str()));
        i += 1;
    }
    assert(jsons_of(values@) =~= Seq::new(
        string_views(texts@).len(),
        |i: int| Json::Text(string_views(texts@)[i]),
    ));
    json_array(values)
}

/// The object that attributes make.
pub fn attributes_value(attributes: &AttributeMap) -> (r: Value)
    ensures
        json_of(r) == attributes_json(attributes@),
{
    let count = attributes.len();
    let mut object = Object::new();
    let mut i: usize = 0;
    assert(attributes@.subrange(0, 0) =~= Seq::<(Seq<char>, Seq<char>)>::empty());
    while i < count
        invariant
            i <= count,
            count == attributes@.len(),
            object@ == attribute_members(attributes@.subrange(0, i as int)),
        decreases count - i,
    {
        proof {
            assert(attributes@.subrange(0, i + 1).drop_last() =~= attributes@.subrange(
                0,
                i as int,
            ));
            assert(attributes@.subrange(0, i + 1).last() == attributes@[i as int]);
        }
        object = object.with(
            attributes.key_at(i).as_str(),
            json_text(attributes.value_at(i).as_str()),
        );
        i += 1;
    }
    assert(attributes@.subrange(0, count as int) =~= attributes@);
    object.finish()
}

/// The kind of a container.
pub fn container_type_value(ctype: ContainerType) -> (r: Value)
    ensures
        json_of(r) == container_type_json(ctype),
{
    match ctype {
        ContainerType::Header(level) => Object::new().with(
            "header",
            json_integer(level as u64),
        ).finish(),
        _ => json_text(ctype.name()),
    }
}

/// An element of the given kind that holds `data`.
fn tagged_value(kind: &str, data: Value) -> (r: Value)
    ensures
        json_of(r) == tagged(kind@, json_of(data)),
{
    Object::new().with("element", json_text(kind)).with("data", data).finish()
}

/// An element of the given kind that holds nothing.
fn plain_value(kind: &str) -> (r: Value)
    ensures
        json_of(r) == plain(kind@),
{
    Object::new().with("element", json_text(kind)).finish()
}

/// Where a link points.
pub fn location_value(target: &LinkLocation) -> (r: Value)
    ensures
        json_of(r) == location_json(target@),
{
    match target {
        LinkLocation::Url(url) => Object::new().with("url", json_text(url.as_str())).finish(),
        LinkLocation::Page { site, page } => {
            let inner = Object::new().with("site", optional_text_value(site)).with(
                "page",
                json_text(page.as_str()),
            ).finish();
            proof {
                match site {
                    Some(_) => {},
                    None => {},
                }
            }
            Object::new().with("page", inner).finish()
        },
    }
}

/// What a link shows.
pub fn label_value(label: &LinkLabel) -> (r: Value)
    ensures
        json_of(r) == label_json(label@),
{
    match label {
        LinkLabel::Text(text) => Object::new().with("text", json_text(text.as_str())).finish(),
        LinkLabel::Url(url) => {
            proof {
                match url {
                    Some(_) => {},
                    None => {},
                }
            }
            Object::new().with("url", optional_text_value(url)).finish()
        },
        LinkLabel::Page => json_text("page"),
    }
}

/// An array of elements.
pub fn elements_value(elements: &[Element]) -> (r: Value)
    ensures
        json_of(r) == elements_json(element_views(elements@)),
    decreases elements@,
{
    let mut values: Vec<Value> = Vec::new();
    let mut i: usize = 0;
    while i < elements.len()
        invariant
            i <= elements.len(),
            values@.len() == i,
            forall|j: int|
                0 <= j < i ==> json_of(#[trigger] values@[j]) == element_json(elements@[j]@),
        decreases elements.len() - i,
    {
        values.push(element_value(&elements[i]));
        i += 1;
    }
    assert(jsons_of(values@) =~= elements_json(element_views(elements@))->Array_0);
    json_array(values)
}

/// An array of list items.
fn list_items_value(items: &[ListItem]) -> (r: Value)
    ensures
        json_of(r) == list_items_json(list_item_views(items@)),
    decreases items@,
{
    let mut values: Vec<Value> = Vec::new();
    let mut i: usize = 0;
    while i < items.len()
        invariant
            i <= items.len(),
            values@.len() == i,
            forall|j: int|
                0 <= j < i ==> json_of(#[trigger] values@[j]) == list_item_json(items@[j]@),
        decreases items.len() - i,
    {
        let value = match &items[i] {
            ListItem::Elements(elements) => Object::new().with(
                "item-type",
                json_text("elements"),
            ).with("elements", elements_value(elements.as_slice())).finish(),
            ListItem::SubList(list) => {
                let inner: &Element = &**list;
                Object::new().with("item-type", json_text("sub-list")).with(
                    "element",
                    element_value(inner),
                ).finish()
            },
        };
        values.push(value);
        i += 1;
    }
    assert(jsons_of(values@) =~= list_items_json(list_item_views(items@))->Array_0);
    json_array(values)
}

/// An array of rows of a definition list.
fn definition_items_value(items: &[DefinitionListItem]) -> (r: Value)
    ensures
        json_of(r) == definition_items_json(definition_item_views(items@)),
    decreases items@,
{
    let mut values: Vec<Value> = Vec::new();
    let mut i: usize = 0;
    while i < items.len()
        invariant
            i <= items.len(),
            values@.len() == i,
            forall|j: int|
                0 <= j < i ==> json_of(#[trigger] values@[j]) == definition_item_json(items@[j]@),
        decreases items.len() - i,
    {
        let value = Object::new().with("key", elements_value(items[i].key.as_slice())).with(
            "value",
            elements_value(items[i].value.as_slice()),
        ).finish();
        values.push(value);
        i += 1;
    }
    assert(jsons_of(values@) =~= definition_items_json(definition_item_views(items@))->Array_0);
    json_array(values)
}

/// An element.
#[verifier::rlimit(40)]
pub fn element_value(element: &Element) -> (r: Value)
    ensures
        json_of(r) == element_json(element@),
    decreases element,
{
    match element {
        Element::Container { ctype, elements, attributes } => tagged_value(
            "container",
            Object::new().with("type", container_type_value(*ctype)).with(
                "attributes",
                attributes_value(attributes),
            ).with("elements", elements_value(elements.as_slice())).finish(),
        ),
        Element::Module { name, arguments, body } => tagged_value(
            "module",
            Object::new().with("name", json_text(name.as_str())).with(
                "arguments",
                attributes_value(arguments),
            ).with("body", optional_text_value(body)).finish(),
        ),
        Element::Text(text) => tagged_value("text", json_text(text.as_str())),
        Element::Raw(text) => tagged_value("raw", json_text(text.as_str())),
        Element::Email(text) => tagged_value("email", json_text(text.as_str())),
        Element::Anchor { elements, attributes, new_tab } => tagged_value(
            "anchor",
            Object::new().with("elements", elements_value(elements.as_slice())).with(
                "attributes",
                attributes_value(attributes),
            ).with("new-tab", json_bool(*new_tab)).finish(),
        ),
        Element::Link { target, label, new_tab, interwiki } => tagged_value(
            "link",
            Object::new().with("target", location_value(target)).with(
                "label",
                label_value(label),
            ).with("new-tab", json_bool(*new_tab)).with("interwiki", json_bool(*interwiki)).finish(),
        ),
        Element::List { ltype, items } => tagged_value(
            "list",
            Object::new().with("type", json_text(ltype.name())).with(
                "items",
                list_items_value(items.as_slice()),
            ).finish(),
        ),
        Element::DefinitionList(items) => tagged_value(
            "definition-list",
            definition_items_value(items.as_slice()),
        ),
        Element::RadioButton { name, checked, attributes } => tagged_value(
            "radio-button",
            Object::new().with("name", json_text(name.as_str())).with(
                "checked",
                json_bool(*checked),
            ).with("attributes", attributes_value(attributes)).finish(),
        ),
        Element::CheckBox { checked, attributes } => tagged_value(
            "check-box",
            Object::new().with("checked", json_bool(*checked)).with(
                "attributes",
                attributes_value(attributes),
            ).finish(),
        ),
        Element::Collapsible { elements, show_text, hide_text, show_top, show_bottom } => {
            tagged_value(
                "collapsible",
                Object::new().with("elements", elements_value(elements.as_slice())).with(
                    "show-text",
                    optional_text_value(show_text),
                ).with("hide-text", optional_text_value(hide_text)).with(
                    "show-top",
                    json_bool(*show_top),
                ).with("show-bottom", json_bool(*show_bottom)).finish(),
            )
        },
        Element::Color { color, elements } => tagged_value(
            "color",
            Object::new().with("color", json_text(color.as_str())).with(
                "elements",
                elements_value(elements.as_slice()),
            ).finish(),
        ),
        Element::Code { contents, language } => tagged_value(
            "code",
            Object::new().with("contents", json_text(contents.as_str())).with(
                "language",
                optional_text_value(language),
            ).finish(),
        ),
        Element::Html { contents } => tagged_value(
            "html",
            Object::new().with("contents", json_text(contents.as_str())).finish(),
        ),
        Element::Iframe { url, attributes } => tagged_value(
            "iframe",
            Object::new().with("url", json_text(url.as_str())).with(
                "attributes",
                attributes_value(attributes),
            ).finish(),
        ),
        Element::LineBreak => plain_value("line-break"),
        Element::LineBreaks(count) => tagged_value("line-breaks", json_integer(*count as u64)),
        Element::HorizontalRule => plain_value("horizontal-rule"),
        Element::Partial(partial) => match partial {
            PartialElement::RubyText { attributes, elements } => tagged_value(
                "partial",
                Object::new().with("partial", json_text("ruby-text")).with(
                    "attributes",
                    attributes_value(attributes),
                ).with("elements", elements_value(elements.as_slice())).finish(),
            ),
        },
    }
}

/// A syntax tree.
pub fn tree_value(tree: &SyntaxTree) -> (r: Value)
    ensures
        json_of(r) == tree_json(tree@),
{
    let mut footnotes: Vec<Value> = Vec::new();
    let mut i: usize = 0;
    while i < tree.footnotes.len()
        invariant
            i <= tree.footnotes.len(),
            footnotes@.len() == i,
            forall|j: int|
                0 <= j < i ==> json_of(#[trigger] footnotes@[j]) == elements_json(
                    element_views(tree.footnotes@[j]@),
                ),
        decreases tree.footnotes.len() - i,
    {
        footnotes.push(elements_value(tree.footnotes[i].as_slice()));
        i += 1;
    }
    assert(jsons_of(footnotes@) =~= Seq::new(
        tree@.footnotes.len(),
        |i: int| elements_json(tree@.footnotes[i]),
    ));
    Object::new().with("elements", elements_value(tree.elements.as_slice())).with(
        "styles",
        texts_value(tree.styles.as_slice()),
    ).with("table-of-contents", elements_value(tree.table_of_contents.as_slice())).with(
        "footnotes",
        json_array(footnotes),
    ).finish()
}

/// The settings of a parse, without its interwiki prefixes.
pub fn settings_value(settings: &WikitextSettings) -> (r: Value)
    ensures
        json_of(r) == settings_json(*settings),
{
    Object::new().with("mode", json_text(settings.mode.name())).with(
        "enable-page-syntax",
        json_bool(settings.enable_page_syntax),
    ).with("use-true-ids", json_bool(settings.use_true_ids)).with(
        "allow-local-paths",
        json_bool(settings.allow_local_paths),
    ).finish()
}

/// What is known about a page.
pub fn page_info_value(info: &PageInfo) -> (r: Value)
    ensures
        json_of(r) == page_info_json(*info),
{
    Object::new().with("page", json_text(info.page.as_str())).with(
        "category",
        optional_text_value(&info.category),
    ).with("site", json_text(info.site.as_str())).with("title", json_text(info.title.as_str())).with(
        "alt-title",
        optional_text_value(&info.alt_title),
    ).with("rating", json_real(info.rating)).with("tags", texts_value(info.tags.as_slice())).with(
        "language",
        json_text(info.language.as_str()),
    ).finish()
}

/// What the JSON renderer writes: the settings, the page and the tree.
pub fn output_value(tree: &SyntaxTree, page_info: &PageInfo, settings: &WikitextSettings) -> (r:
    Value)
    ensures
        json_of(r) == output_json(tree@, *page_info, *settings),
{
    Object::new().with("settings", settings_value(settings)).with(
        "page-info",
        page_info_value(page_info),
    ).with("syntax-tree", tree_value(tree)).finish()
}

} // verus!
