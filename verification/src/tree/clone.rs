//! Deep copies of tree parts.
//!
//! A copy has the same mathematical value as its source and shares no storage
//! with it, so it may outlive the text the source was parsed from.

use crate::tree::element::{
    definition_item_views, element_views, list_item_views, DefinitionListItem, Element, ListItem,
};
use vstd::prelude::*;

verus! {

/// The views of a sequence of strings, in order.
pub open spec fn string_views(strings: Seq<String>) -> Seq<Seq<char>> {
    Seq::new(strings.len(), |i: int| strings[i]@)
}

/// The view of an optional string.
pub open spec fn option_string_view(option_string: Option<String>) -> Option<Seq<char>> {
    match option_string {
        Some(string) => Some(string@),
        None => None,
    }
}

/// A copy of an optional string.
pub fn option_string_to_owned(option_string: &Option<String>) -> (r: Option<String>)
    ensures
        option_string_view(r) == option_string_view(*option_string),
{
    match option_string {
        Some(string) => Some(string_to_owned(string)),
        None => None,
    }
}

/// A copy of a string.
pub fn string_to_owned(string: &String) -> (r: String)
    ensures
        r@ == string@,
{
    string.clone()
}

/// A copy of each of `strings`, in the same order.
pub fn strings_to_owned(strings: &[String]) -> (r: Vec<String>)
    ensures
        string_views(r@) == string_views(strings@),
{
    let mut out: Vec<String> = Vec::new();
    let mut i: usize = 0;
    while i < strings.len()
        invariant
            i <= strings.len(),
            out.len() == i,
            forall|j: int| 0 <= j < i ==> out[j]@ == strings[j]@,
        decreases strings.len() - i,
    {
        out.push(string_to_owned(&strings[i]));
        i += 1;
    }
    assert(string_views(out@) =~= string_views(strings@));
    out
}

/// A deep copy of `elements`: the copies have the same values, in the same order.
pub fn elements_to_owned(elements: &[Element]) -> (r: Vec<Element>)
    ensures
        element_views(r@) == element_views(elements@),
    decreases elements@,
{
    let mut out: Vec<Element> = Vec::new();
    let mut i: usize = 0;
    while i < elements.len()
        invariant
            i <= elements.len(),
            out.len() == i,
            forall|j: int| 0 <= j < i ==> out[j]@ == elements[j]@,
        decreases elements.len() - i,
    {
        out.push(elements[i].to_owned());
        i += 1;
    }
    assert(element_views(out@) =~= element_views(elements@));
    out
}

/// A deep copy of `list_items`: the copies have the same values, in the same order.
pub fn list_items_to_owned(list_items: &[ListItem]) -> (r: Vec<ListItem>)
    ensures
        list_item_views(r@) == list_item_views(list_items@),
    decreases list_items@,
{
    let mut out: Vec<ListItem> = Vec::new();
    let mut i: usize = 0;
    while i < list_items.len()
        invariant
            i <= list_items.len(),
            out.len() == i,
            forall|j: int| 0 <= j < i ==> out[j]@ == list_items[j]@,
        decreases list_items.len() - i,
    {
        out.push(list_items[i].to_owned());
        i += 1;
    }
    assert(list_item_views(out@) =~= list_item_views(list_items@));
    out
}

/// A deep copy of `items`: the copies have the same values, in the same order.
pub fn definition_items_to_owned(items: &[DefinitionListItem]) -> (r: Vec<DefinitionListItem>)
    ensures
        definition_item_views(r@) == definition_item_views(items@),
    decreases items@,
{
    let mut out: Vec<DefinitionListItem> = Vec::new();
    let mut i: usize = 0;
    while i < items.len()
        invariant
            i <= items.len(),
            out.len() == i,
            forall|j: int| 0 <= j < i ==> out[j]@ == items[j]@,
        decreases items.len() - i,
    {
        out.push(items[i].to_owned());
        i += 1;
    }
    assert(definition_item_views(out@) =~= definition_item_views(items@));
    out
}

} // verus!
