//! What holds of the elements of a finished tree, at any depth.

use crate::tree::container::{ContainerType, MAX_HEADING_LEVEL, MIN_HEADING_LEVEL};
use crate::tree::element::{
    SpecDefinitionListItem, SpecElement, SpecListItem, SpecPartialElement,
};
use crate::tree::syntax_tree::SpecSyntaxTree;
use crate::tree::valid::{all_partial_free, all_valid};
use vstd::prelude::*;

verus! {

/// Whether `inner` is `outer` or stands somewhere below it.
pub open spec fn contains(outer: SpecElement, inner: SpecElement) -> bool
    decreases outer,
{
    outer == inner || match outer {
        SpecElement::Container { ctype, elements, attributes } => any_contains(elements, inner),
        SpecElement::Anchor { elements, attributes, new_tab } => any_contains(elements, inner),
        SpecElement::Collapsible { elements, show_text, hide_text, show_top, show_bottom } =>
            any_contains(elements, inner),
        SpecElement::Color { color, elements } => any_contains(elements, inner),
        SpecElement::List { ltype, items } => exists|i: int|
            0 <= i < items.len() && item_contains(#[trigger] items[i], inner),
        SpecElement::DefinitionList(items) => exists|i: int|
            0 <= i < items.len() && row_contains(#[trigger] items[i], inner),
        SpecElement::Partial(SpecPartialElement::RubyText { attributes, elements }) => any_contains(
            elements,
            inner,
        ),
        _ => false,
    }
}

/// Whether `inner` is one of `elements` or stands somewhere below one.
pub open spec fn any_contains(elements: Seq<SpecElement>, inner: SpecElement) -> bool
    decreases elements,
{
    exists|i: int| 0 <= i < elements.len() && contains(#[trigger] elements[i], inner)
}

/// Whether `inner` stands somewhere in the list item.
pub open spec fn item_contains(item: SpecListItem, inner: SpecElement) -> bool
    decreases item,
{
    match item {
        SpecListItem::Elements(elements) => any_contains(elements, inner),
        SpecListItem::SubList(list) => contains(*list, inner),
    }
}

/// Whether `inner` stands somewhere in the row of a definition list.
pub open spec fn row_contains(item: SpecDefinitionListItem, inner: SpecElement) -> bool
    decreases item,
{
    any_contains(item.key, inner) || any_contains(item.value, inner)
}

/// Every element below a well-formed element is well formed.
pub proof fn lemma_valid_within(outer: SpecElement, inner: SpecElement)
    requires
        outer.valid(),
        contains(outer, inner),
    ensures
        inner.valid(),
    decreases outer,
{
    if outer != inner {
        match outer {
            SpecElement::Container { ctype, elements, attributes } => {
                lemma_valid_among(elements, inner);
            },
            SpecElement::Anchor { elements, attributes, new_tab } => {
                lemma_valid_among(elements, inner);
            },
            SpecElement::Collapsible { elements, show_text, hide_text, show_top, show_bottom } => {
                lemma_valid_among(elements, inner);
            },
            SpecElement::Color { color, elements } => {
                lemma_valid_among(elements, inner);
            },
            SpecElement::List { ltype, items } => {
                let i = choose|i: int|
                    0 <= i < items.len() && item_contains(#[trigger] items[i], inner);
                assert(items[i].valid());
                match items[i] {
                    SpecListItem::Elements(elements) => {
                        lemma_valid_among(elements, inner);
                    },
                    SpecListItem::SubList(list) => {
                        lemma_valid_within(*list, inner);
                    },
                }
            },
            SpecElement::DefinitionList(items) => {
                let i = choose|i: int|
                    0 <= i < items.len() && row_contains(#[trigger] items[i], inner);
                assert(items[i].valid());
                if any_contains(items[i].key, inner) {
                    lemma_valid_among(items[i].key, inner);
                } else {
                    lemma_valid_among(items[i].value, inner);
                }
            },
            SpecElement::Partial(SpecPartialElement::RubyText { attributes, elements }) => {
                lemma_valid_among(elements, inner);
            },
            _ => {},
        }
    }
}

/// Every element below well-formed elements is well formed.
pub proof fn lemma_valid_among(elements: Seq<SpecElement>, inner: SpecElement)
    requires
        all_valid(elements),
        any_contains(elements, inner),
    ensures
        inner.valid(),
    decreases elements,
{
    let i = choose|i: int| 0 <= i < elements.len() && contains(#[trigger] elements[i], inner);
    assert(elements[i].valid());
    lemma_valid_within(elements[i], inner);
}

/// No element below an element without partial elements is partial.
pub proof fn lemma_partial_free_within(outer: SpecElement, inner: SpecElement)
    requires
        outer.partial_free(),
        contains(outer, inner),
    ensures
        !(inner is Partial),
    decreases outer,
{
    if outer != inner {
        match outer {
            SpecElement::Container { ctype, elements, attributes } => {
                lemma_partial_free_among(elements, inner);
            },
            SpecElement::Anchor { elements, attributes, new_tab } => {
                lemma_partial_free_among(elements, inner);
            },
            SpecElement::Collapsible { elements, show_text, hide_text, show_top, show_bottom } => {
                lemma_partial_free_among(elements, inner);
            },
            SpecElement::Color { color, elements } => {
                lemma_partial_free_among(elements, inner);
            },
            SpecElement::List { ltype, items } => {
                let i = choose|i: int|
                    0 <= i < items.len() && item_contains(#[trigger] items[i], inner);
                assert(items[i].partial_free());
                match items[i] {
                    SpecListItem::Elements(elements) => {
                        lemma_partial_free_among(elements, inner);
                    },
                    SpecListItem::SubList(list) => {
                        lemma_partial_free_within(*list, inner);
                    },
                }
            },
            SpecElement::DefinitionList(items) => {
                let i = choose|i: int|
                    0 <= i < items.len() && row_contains(#[trigger] items[i], inner);
                assert(items[i].partial_free());
                if any_contains(items[i].key, inner) {
                    lemma_partial_free_among(items[i].key, inner);
                } else {
                    lemma_partial_free_among(items[i].value, inner);
                }
            },
            _ => {},
        }
    }
}

/// No element below elements without partial elements is partial.
pub proof fn lemma_partial_free_among(elements: Seq<SpecElement>, inner: SpecElement)
    requires
        all_partial_free(elements),
        any_contains(elements, inner),
    ensures
        !(inner is Partial),
    decreases elements,
{
    let i = choose|i: int| 0 <= i < elements.len() && contains(#[trigger] elements[i], inner);
    assert(elements[i].partial_free());
    lemma_partial_free_within(elements[i], inner);
}

/// A finished tree holds no partial element, at any depth.
pub proof fn lemma_no_partial_in_finished_tree(tree: SpecSyntaxTree, inner: SpecElement)
    requires
        tree.finished(),
        any_contains(tree.elements, inner),
    ensures
        !(inner is Partial),
{
    lemma_partial_free_among(tree.elements, inner);
}

/// Every heading in a finished tree, at any depth, has a level from 1 to 6.
pub proof fn lemma_header_levels_in_finished_tree(tree: SpecSyntaxTree, inner: SpecElement)
    requires
        tree.finished(),
        any_contains(tree.elements, inner),
    ensures
        inner matches SpecElement::Container { ctype: ContainerType::Header(level), .. }
            ==> MIN_HEADING_LEVEL <= level <= MAX_HEADING_LEVEL,
{
    lemma_valid_among(tree.elements, inner);
}

/// Every nested list in a finished tree, at any depth, is a list.
pub proof fn lemma_sub_lists_in_finished_tree(tree: SpecSyntaxTree, inner: SpecElement, i: int)
    requires
        tree.finished(),
        any_contains(tree.elements, inner),
        inner is List,
        0 <= i < inner->List_items.len(),
    ensures
        inner->List_items[i] matches SpecListItem::SubList(list) ==> *list is List,
{
    lemma_valid_among(tree.elements, inner);
    assert(inner->List_items[i].valid());
}

} // verus!
