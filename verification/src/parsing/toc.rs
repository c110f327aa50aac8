//! The table of contents of a page: one entry per heading.

use crate::text::{decimal, decimal_text};
use crate::tree::container::ContainerType;
use crate::tree::element::{element_views, Element, SpecElement};
use crate::tree::link::{LinkLabel, LinkLocation, SpecLinkLabel, SpecLinkLocation};
use crate::tree::valid::all_partial_free;
use vstd::prelude::*;

verus! {

/// The text that an element shows, without any layout: the text of text
/// elements and of links with a label of their own, at any depth.
pub open spec fn flat_text_of(element: SpecElement) -> Seq<char>
    decreases element, 0nat,
{
    match element {
        SpecElement::Text(text) | SpecElement::Raw(text) | SpecElement::Email(text) => text,
        SpecElement::Container { ctype, elements, attributes } => flat_text(elements, 0),
        SpecElement::Anchor { elements, attributes, new_tab } => flat_text(elements, 0),
        SpecElement::Color { color, elements } => flat_text(elements, 0),
        SpecElement::Link { target, label, new_tab, interwiki } => match label {
            SpecLinkLabel::Text(text) => text,
            _ => Seq::empty(),
        },
        _ => Seq::empty(),
    }
}

/// The text that the elements from the `i`th on show, without any layout.
pub open spec fn flat_text(elements: Seq<SpecElement>, i: int) -> Seq<char>
    decreases elements, elements.len() - i,
{
    if i < 0 || i >= elements.len() {
        Seq::empty()
    } else {
        flat_text_of(elements[i]) + flat_text(elements, i + 1)
    }
}

/// The anchor of the heading with the given index.
pub open spec fn toc_anchor(index: nat) -> Seq<char> {
    "#toc"@ + decimal_text(index)
}

/// The entry of the table of contents for the heading with the given index
/// and contents: a link to the anchor of the heading that shows its text.
pub open spec fn toc_entry(index: nat, contents: Seq<SpecElement>) -> SpecElement {
    SpecElement::Link {
        target: SpecLinkLocation::Url(toc_anchor(index)),
        label: SpecLinkLabel::Text(flat_text(contents, 0)),
        new_tab: false,
        interwiki: false,
    }
}

/// The table of contents of the elements from the `i`th on, of which
/// `count` headings come before: an entry for every heading at the top
/// level, in order, the headings counted from zero.
pub open spec fn table_of_contents(elements: Seq<SpecElement>, i: int, count: nat) -> Seq<
    SpecElement,
>
    decreases elements.len() - i,
{
    if i < 0 || i >= elements.len() {
        Seq::empty()
    } else {
        match elements[i] {
            SpecElement::Container { ctype: ContainerType::Header(_), elements: contents, attributes } =>
                seq![toc_entry(count, contents)] + table_of_contents(elements, i + 1, count + 1),
            _ => table_of_contents(elements, i + 1, count),
        }
    }
}

/// Appends the text that the elements show to `out`.
pub fn append_flat_text(elements: &[Element], out: &mut String)
    ensures
        final(out)@ == old(out)@ + flat_text(element_views(elements@), 0),
    decreases elements@,
{
    let ghost views = element_views(elements@);
    let mut i: usize = 0;
    while i < elements.len()
        invariant
            i <= elements.len(),
            views == element_views(elements@),
            out@ + flat_text(views, i as int) == old(out)@ + flat_text(views, 0),
        decreases elements.len() - i,
    {
        let ghost before = out@;
        append_flat_text_of(&elements[i], out);
        proof {
            assert(before + (flat_text_of(views[i as int]) + flat_text(views, i + 1)) =~= (before
                + flat_text_of(views[i as int])) + flat_text(views, i + 1));
        }
        i += 1;
    }
    assert(out@ + Seq::<char>::empty() =~= out@);
}

/// Appends the text that the element shows to `out`.
pub fn append_flat_text_of(element: &Element, out: &mut String)
    ensures
        final(out)@ == old(out)@ + flat_text_of(element@),
    decreases element,
{
    match element {
        Element::Text(text) | Element::Raw(text) | Element::Email(text) => {
            out.append(text.as_str());
        },
        Element::Container { ctype, elements, attributes } => {
            append_flat_text(elements.as_slice(), out);
        },
        Element::Anchor { elements, attributes, new_tab } => {
            append_flat_text(elements.as_slice(), out);
        },
        Element::Color { color, elements } => {
            append_flat_text(elements.as_slice(), out);
        },
        Element::Link { target, label, new_tab, interwiki } => match label {
            LinkLabel::Text(text) => {
                out.append(text.as_str());
            },
            _ => {
                assert(out@ + Seq::<char>::empty() =~= out@);
            },
        },
        _ => {
            assert(out@ + Seq::<char>::empty() =~= out@);
        },
    }
}

/// Builds the table of contents of `elements`.
pub fn build_table_of_contents(elements: &[Element]) -> (r: Vec<Element>)
    ensures
        element_views(r@) == table_of_contents(element_views(elements@), 0, 0),
        all_partial_free(element_views(r@)),
{
    let ghost views = element_views(elements@);
    let mut entries: Vec<Element> = Vec::new();
    let mut count: usize = 0;
    let mut i: usize = 0;
    proof {
        assert(element_views(entries@) =~= Seq::<SpecElement>::empty());
        assert(Seq::<SpecElement>::empty() + table_of_contents(views, 0, 0) =~= table_of_contents(
            views,
            0,
            0,
        ));
    }
    while i < elements.len()
        invariant
            i <= elements.len(),
            count <= i,
            views == element_views(elements@),
            element_views(entries@) + table_of_contents(views, i as int, count as nat)
                == table_of_contents(views, 0, 0),
            all_partial_free(element_views(entries@)),
        decreases elements.len() - i,
    {
        match &elements[i] {
            Element::Container { ctype: ContainerType::Header(_), elements: contents, attributes } => {
                let mut anchor = String::from_str("#toc");
                let number = decimal(count);
                anchor.append(number.as_str());
                let mut label = String::new();
                append_flat_text(contents.as_slice(), &mut label);
                let entry = Element::Link {
                    target: LinkLocation::Url(anchor),
                    label: LinkLabel::Text(label),
                    new_tab: false,
                    interwiki: false,
                };
                let ghost before = entries@;
                proof {
                    assert(label@ =~= flat_text(element_views(contents@), 0));
                    assert(entry@ == toc_entry(count as nat, element_views(contents@)));
                    assert(entry@.partial_free());
                }
                entries.push(entry);
                proof {
                    assert(element_views(entries@) =~= element_views(before).push(entry@));
                    assert(element_views(before).push(entry@) + table_of_contents(
                        views,
                        i + 1,
                        (count + 1) as nat,
                    ) =~= element_views(before) + (seq![entry@] + table_of_contents(
                        views,
                        i + 1,
                        (count + 1) as nat,
                    )));
                }
                count += 1;
            },
            _ => {},
        }
        i += 1;
    }
    assert(element_views(entries@) + Seq::<SpecElement>::empty() =~= element_views(entries@));
    entries
}

} // verus!
