//! The JSON form of a syntax tree.
//!
//! Names are written in kebab case. An element is an object with the member
//! `element`, which names its kind, and, where the kind holds anything, the
//! member `data`.

use crate::data::PageInfo;
use crate::render::json::value::{put, Json};
use crate::settings::WikitextSettings;
use crate::tree::attribute::SpecAttributes;
use crate::tree::clone::{option_string_view, string_views};
use crate::tree::container::ContainerType;
use crate::tree::element::{
    SpecDefinitionListItem, SpecElement, SpecListItem, SpecPartialElement,
};
use crate::tree::link::{SpecLinkLabel, SpecLinkLocation};
use crate::tree::syntax_tree::SpecSyntaxTree;
use vstd::prelude::*;

verus! {

/// No member.
pub open spec fn none() -> Seq<(Seq<char>, Json)> {
    Seq::empty()
}

/// A text, or `null` where there is none.
pub open spec fn optional_text(text: Option<Seq<char>>) -> Json {
    match text {
        Some(text) => Json::Text(text),
        None => Json::Null,
    }
}

/// An array of texts.
pub open spec fn texts_json(texts: Seq<Seq<char>>) -> Json {
    Json::Array(Seq::new(texts.len(), |i: int| Json::Text(texts[i])))
}

/// The members that attributes make: one text per name.
pub open spec fn attribute_members(attributes: SpecAttributes) -> Seq<(Seq<char>, Json)>
    decreases attributes.len(),
{
    if attributes.len() == 0 {
        none()
    } else {
        put(
            attribute_members(attributes.drop_last()),
            attributes.last().0,
            Json::Text(attributes.last().1),
        )
    }
}

/// The object that attributes make.
pub open spec fn attributes_json(attributes: SpecAttributes) -> Json {
    Json::Object(attribute_members(attributes))
}

/// The kind of a container: its name, or for a heading an object that holds
/// its level.
pub open spec fn container_type_json(ctype: ContainerType) -> Json {
    match ctype {
        ContainerType::Header(level) => Json::Object(
            put(none(), "header"@, Json::Integer(level as int)),
        ),
        _ => Json::Text(ctype.spec_name()),
    }
}

/// An element of the given kind that holds nothing.
pub open spec fn plain(kind: Seq<char>) -> Json {
    Json::Object(put(none(), "element"@, Json::Text(kind)))
}

/// An element of the given kind that holds `data`.
pub open spec fn tagged(kind: Seq<char>, data: Json) -> Json {
    Json::Object(put(put(none(), "element"@, Json::Text(kind)), "data"@, data))
}

/// Where a link points.
pub open spec fn location_json(target: SpecLinkLocation) -> Json {
    match target {
        SpecLinkLocation::Url(url) => Json::Object(put(none(), "url"@, Json::Text(url))),
        SpecLinkLocation::Page { site, page } => Json::Object(
            put(
                none(),
                "page"@,
                Json::Object(put(put(none(), "site"@, optional_text(site)), "page"@, Json::Text(page))),
            ),
        ),
    }
}

/// What a link shows.
pub open spec fn label_json(label: SpecLinkLabel) -> Json {
    match label {
        SpecLinkLabel::Text(text) => Json::Object(put(none(), "text"@, Json::Text(text))),
        SpecLinkLabel::Url(url) => Json::Object(put(none(), "url"@, optional_text(url))),
        SpecLinkLabel::Page => Json::Text("page"@),
    }
}

/// An array of elements.
pub open spec fn elements_json(elements: Seq<SpecElement>) -> Json
    decreases elements,
{
    Json::Array(
        Seq::new(
            elements.len(),
            |i: int|
                if 0 <= i < elements.len() {
                    element_json(elements[i])
                } else {
                    Json::Null
                },
        ),
    )
}

/// An element.
pub open spec fn element_json(element: SpecElement) -> Json
    decreases element,
{
    match element {
        SpecElement::Container { ctype, elements, attributes } => tagged(
            "container"@,
            Json::Object(
                put(
                    put(
                        put(none(), "type"@, container_type_json(ctype)),
                        "attributes"@,
                        attributes_json(attributes),
                    ),
                    "elements"@,
                    elements_json(elements),
                ),
            ),
        ),
        SpecElement::Module { name, arguments, body } => tagged(
            "module"@,
            Json::Object(
                put(
                    put(
                        put(none(), "name"@, Json::Text(name)),
                        "arguments"@,
                        attributes_json(arguments),
                    ),
                    "body"@,
                    optional_text(body),
                ),
            ),
        ),
        SpecElement::Text(text) => tagged("text"@, Json::Text(text)),
        SpecElement::Raw(text) => tagged("raw"@, Json::Text(text)),
        SpecElement::Email(text) => tagged("email"@, Json::Text(text)),
        SpecElement::Anchor { elements, attributes, new_tab } => tagged(
            "anchor"@,
            Json::Object(
                put(
                    put(
                        put(none(), "elements"@, elements_json(elements)),
                        "attributes"@,
                        attributes_json(attributes),
                    ),
                    "new-tab"@,
                    Json::Bool(new_tab),
                ),
            ),
        ),
        SpecElement::Link { target, label, new_tab, interwiki } => tagged(
            "link"@,
            Json::Object(
                put(
                    put(
                        put(put(none(), "target"@, location_json(target)), "label"@, label_json(label)),
                        "new-tab"@,
                        Json::Bool(new_tab),
                    ),
                    "interwiki"@,
                    Json::Bool(interwiki),
                ),
            ),
        ),
        SpecElement::List { ltype, items } => tagged(
            "list"@,
            Json::Object(
                put(
                    put(none(), "type"@, Json::Text(ltype.spec_name())),
                    "items"@,
                    list_items_json(items),
                ),
            ),
        ),
        SpecElement::DefinitionList(items) => tagged(
            "definition-list"@,
            definition_items_json(items),
        ),
        SpecElement::RadioButton { name, checked, attributes } => tagged(
            "radio-button"@,
            Json::Object(
                put(
                    put(put(none(), "name"@, Json::Text(name)), "checked"@, Json::Bool(checked)),
                    "attributes"@,
                    attributes_json(attributes),
                ),
            ),
        ),
        SpecElement::CheckBox { checked, attributes } => tagged(
            "check-box"@,
            Json::Object(
                put(
                    put(none(), "checked"@, Json::Bool(checked)),
                    "attributes"@,
                    attributes_json(attributes),
                ),
            ),
        ),
        SpecElement::Collapsible { elements, show_text, hide_text, show_top, show_bottom } => tagged(
            "collapsible"@,
            Json::Object(
                put(
                    put(
                        put(
                            put(
                                put(none(), "elements"@, elements_json(elements)),
                                "show-text"@,
                                optional_text(show_text),
                            ),
                            "hide-text"@,
                            optional_text(hide_text),
                        ),
                        "show-top"@,
                        Json::Bool(show_top),
                    ),
                    "show-bottom"@,
                    Json::Bool(show_bottom),
                ),
            ),
        ),
        SpecElement::Color { color, elements } => tagged(
            "color"@,
            Json::Object(
                put(put(none(), "color"@, Json::Text(color)), "elements"@, elements_json(elements)),
            ),
        ),
        SpecElement::Code { contents, language } => tagged(
            "code"@,
            Json::Object(
                put(
                    put(none(), "contents"@, Json::Text(contents)),
                    "language"@,
                    optional_text(language),
                ),
            ),
        ),
        SpecElement::Html { contents } => tagged(
            "html"@,
            Json::Object(put(none(), "contents"@, Json::Text(contents))),
        ),
        SpecElement::Iframe { url, attributes } => tagged(
            "iframe"@,
            Json::Object(
                put(put(none(), "url"@, Json::Text(url)), "attributes"@, attributes_json(attributes)),
            ),
        ),
        SpecElement::LineBreak => plain("line-break"@),
        SpecElement::LineBreaks(count) => tagged("line-breaks"@, Json::Integer(count as int)),
        SpecElement::HorizontalRule => plain("horizontal-rule"@),
        SpecElement::Partial(partial) => tagged("partial"@, partial_json(partial)),
    }
}

/// An array of list items.
pub open spec fn list_items_json(items: Seq<SpecListItem>) -> Json
    decreases items,
{
    Json::Array(
        Seq::new(
            items.len(),
            |i: int|
                if 0 <= i < items.len() {
                    list_item_json(items[i])
                } else {
                    Json::Null
                },
        ),
    )
}

/// An array of rows of a definition list.
pub open spec fn definition_items_json(items: Seq<SpecDefinitionListItem>) -> Json
    decreases items,
{
    Json::Array(
        Seq::new(
            items.len(),
            |i: int|
                if 0 <= i < items.len() {
                    definition_item_json(items[i])
                } else {
                    Json::Null
                },
        ),
    )
}

/// An item of a list.
pub open spec fn list_item_json(item: SpecListItem) -> Json
    decreases item,
{
    match item {
        SpecListItem::Elements(elements) => Json::Object(
            put(
                put(none(), "item-type"@, Json::Text("elements"@)),
                "elements"@,
                elements_json(elements),
            ),
        ),
        SpecListItem::SubList(list) => Json::Object(
            put(put(none(), "item-type"@, Json::Text("sub-list"@)), "element"@, element_json(*list)),
        ),
    }
}

/// A row of a definition list.
pub open spec fn definition_item_json(item: SpecDefinitionListItem) -> Json
    decreases item,
{
    Json::Object(
        put(put(none(), "key"@, elements_json(item.key)), "value"@, elements_json(item.value)),
    )
}

/// A partial element.
pub open spec fn partial_json(partial: SpecPartialElement) -> Json
    decreases partial,
{
    match partial {
        SpecPartialElement::RubyText { attributes, elements } => Json::Object(
            put(
                put(
                    put(none(), "partial"@, Json::Text("ruby-text"@)),
                    "attributes"@,
                    attributes_json(attributes),
                ),
                "elements"@,
                elements_json(elements),
            ),
        ),
    }
}

/// A syntax tree.
pub open spec fn tree_json(tree: SpecSyntaxTree) -> Json {
    Json::Object(
        put(
            put(
                put(
                    put(none(), "elements"@, elements_json(tree.elements)),
                    "styles"@,
                    texts_json(tree.styles),
                ),
                "table-of-contents"@,
                elements_json(tree.table_of_contents),
            ),
            "footnotes"@,
            Json::Array(
                Seq::new(tree.footnotes.len(), |i: int| elements_json(tree.footnotes[i])),
            ),
        ),
    )
}

/// The settings of a parse, without its interwiki prefixes.
pub open spec fn settings_json(settings: WikitextSettings) -> Json {
    Json::Object(
        put(
            put(
                put(
                    put(none(), "mode"@, Json::Text(settings.mode.spec_name())),
                    "enable-page-syntax"@,
                    Json::Bool(settings.enable_page_syntax),
                ),
                "use-true-ids"@,
                Json::Bool(settings.use_true_ids),
            ),
            "allow-local-paths"@,
            Json::Bool(settings.allow_local_paths),
        ),
    )
}

/// What is known about a page.
pub open spec fn page_info_json(info: PageInfo) -> Json {
    Json::Object(
        put(
            put(
                put(
                    put(
                        put(
                            put(
                                put(
                                    put(none(), "page"@, Json::Text(info.page@)),
                                    "category"@,
                                    optional_text(option_string_view(info.category)),
                                ),
                                "site"@,
                                Json::Text(info.site@),
                            ),
                            "title"@,
                            Json::Text(info.title@),
                        ),
                        "alt-title"@,
                        optional_text(option_string_view(info.alt_title)),
                    ),
                    "rating"@,
                    Json::Real(info.rating as int),
                ),
                "tags"@,
                texts_json(string_views(info.tags@)),
            ),
            "language"@,
            Json::Text(info.language@),
        ),
    )
}

/// What the JSON renderer writes: the settings, the page and the tree.
pub open spec fn output_json(
    tree: SpecSyntaxTree,
    page_info: PageInfo,
    settings: WikitextSettings,
) -> Json {
    Json::Object(
        put(
            put(put(none(), "settings"@, settings_json(settings)), "page-info"@, page_info_json(page_info)),
            "syntax-tree"@,
            tree_json(tree),
        ),
    )
}

} // verus!
