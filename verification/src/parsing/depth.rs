//! Building a tree of nested lists from items that each name their depth.

use crate::tree::container::ListType;
use crate::tree::element::{element_views, Element, SpecElement};
use crate::tree::valid::{all_partial_free, all_valid};
use vstd::prelude::*;

verus! {

/// The mathematical value of a [`DepthItem`].
pub enum SpecDepthItem {
    Item(Seq<SpecElement>),
    List(ListType, Seq<SpecDepthItem>),
}

/// An entry of a depth list: an item, or a list one level deeper.
#[derive(Debug, PartialEq, Eq)]
pub enum DepthItem {
    Item(Vec<Element>),
    List(ListType, Vec<DepthItem>),
}

/// The values of a sequence of entries, in order.
pub open spec fn depth_item_views(items: Seq<DepthItem>) -> Seq<SpecDepthItem>
    decreases items,
{
    Seq::new(
        items.len(),
        |i: int|
            if 0 <= i < items.len() {
                items[i]@
            } else {
                SpecDepthItem::Item(Seq::empty())
            },
    )
}

impl View for DepthItem {
    type V = SpecDepthItem;

    open spec fn view(&self) -> SpecDepthItem
        decreases self,
    {
        match self {
            DepthItem::Item(elements) => SpecDepthItem::Item(element_views(elements@)),
            DepthItem::List(ltype, items) => SpecDepthItem::List(*ltype, depth_item_views(items@)),
        }
    }
}

impl SpecDepthItem {
    /// Whether all elements in the entry are well formed and finished.
    pub open spec fn finished(self) -> bool
        decreases self,
    {
        match self {
            SpecDepthItem::Item(elements) => all_valid(elements) && all_partial_free(elements),
            SpecDepthItem::List(ltype, items) => forall|i: int|
                0 <= i < items.len() ==> (#[trigger] items[i]).finished(),
        }
    }
}

/// Whether all elements in the entries are well formed and finished.
pub open spec fn all_finished(items: Seq<SpecDepthItem>) -> bool {
    forall|i: int| 0 <= i < items.len() ==> (#[trigger] items[i]).finished()
}

/// Whether all elements in the lists of the stack are well formed and
/// finished.
pub open spec fn layers_finished(stack: Seq<SpecLayer>) -> bool {
    forall|i: int| 0 <= i < stack.len() ==> all_finished((#[trigger] stack[i]).items)
}

/// A list that is being filled: its kind and its entries so far.
pub struct SpecLayer {
    pub ltype: ListType,
    pub items: Seq<SpecDepthItem>,
}

/// One item of the flat input: its depth, the kind of its marker, and its
/// elements.
pub struct SpecDepthEntry {
    pub depth: nat,
    pub ltype: ListType,
    pub elements: Seq<SpecElement>,
}

/// The stack with `item` added to its innermost list.
pub open spec fn push_entry(stack: Seq<SpecLayer>, item: SpecDepthItem) -> Seq<SpecLayer> {
    let top = stack.last();
    stack.drop_last().push(SpecLayer { ltype: top.ltype, items: top.items.push(item) })
}

/// The stack with its innermost list closed and added to the list around it.
pub open spec fn close_layer(stack: Seq<SpecLayer>) -> Seq<SpecLayer> {
    let top = stack.last();
    push_entry(stack.drop_last(), SpecDepthItem::List(top.ltype, top.items))
}

/// The stack with its `count` innermost lists closed; the outermost list
/// stays open.
pub open spec fn close_layers(stack: Seq<SpecLayer>, count: nat) -> Seq<SpecLayer>
    decreases count,
{
    if count == 0 || stack.len() <= 1 {
        stack
    } else {
        close_layers(close_layer(stack), (count - 1) as nat)
    }
}

/// The stack with `count` empty lists of kind `ltype` opened inside it.
pub open spec fn open_layers(stack: Seq<SpecLayer>, ltype: ListType, count: nat) -> Seq<SpecLayer>
    decreases count,
{
    if count == 0 {
        stack
    } else {
        open_layers(stack.push(SpecLayer { ltype, items: Seq::empty() }), ltype, (count - 1) as nat)
    }
}

/// The stack made as deep as `entry` asks: lists of its kind are opened, or
/// lists are closed. Its innermost list is the one that the entry joins.
pub open spec fn shaped_for(stack: Seq<SpecLayer>, entry: SpecDepthEntry) -> Seq<SpecLayer> {
    let level = stack.len() - 1;
    if entry.depth > level {
        open_layers(stack, entry.ltype, (entry.depth - level) as nat)
    } else {
        close_layers(stack, (level - entry.depth) as nat)
    }
}

/// The stack with `entry` added at its depth.
pub open spec fn place(stack: Seq<SpecLayer>, entry: SpecDepthEntry) -> Seq<SpecLayer> {
    push_entry(shaped_for(stack, entry), SpecDepthItem::Item(entry.elements))
}

/// The stack after the entries from the `i`th on: before each, lists are
/// opened or closed until the stack is as deep as the entry asks.
pub open spec fn fold_depths(entries: Seq<SpecDepthEntry>, i: int, stack: Seq<SpecLayer>) -> Seq<
    SpecLayer,
>
    decreases entries.len() - i,
{
    if i < 0 || i >= entries.len() {
        stack
    } else {
        fold_depths(entries, i + 1, place(stack, entries[i]))
    }
}

/// The tree that a flat list of entries stands for: an entry deeper than the
/// one before opens lists down to its depth, of its own kind; a shallower one
/// closes lists up to its depth; an entry at the same depth joins the list
/// that is open, whatever its kind.
pub open spec fn spec_process_depths(top_ltype: ListType, entries: Seq<SpecDepthEntry>) -> Seq<
    SpecDepthItem,
> {
    let stack = fold_depths(entries, 0, seq![SpecLayer { ltype: top_ltype, items: Seq::empty() }]);
    close_layers(stack, stack.len())[0].items
}

/// The value of a stack of lists that are being filled.
pub open spec fn layer_views(stack: Seq<(ListType, Vec<DepthItem>)>) -> Seq<SpecLayer> {
    Seq::new(
        stack.len(),
        |i: int| SpecLayer { ltype: stack[i].0, items: depth_item_views(stack[i].1@) },
    )
}

/// The values of flat entries.
pub open spec fn entry_views(entries: Seq<(usize, ListType, Vec<Element>)>) -> Seq<SpecDepthEntry> {
    Seq::new(
        entries.len(),
        |i: int|
            SpecDepthEntry {
                depth: entries[i].0 as nat,
                ltype: entries[i].1,
                elements: element_views(entries[i].2@),
            },
    )
}

/// Adds `item` to the innermost list of `stack`.
fn push_item(stack: &mut Vec<(ListType, Vec<DepthItem>)>, item: DepthItem)
    requires
        old(stack)@.len() >= 1,
    ensures
        final(stack)@.len() == old(stack)@.len(),
        layer_views(final(stack)@) == push_entry(layer_views(old(stack)@), item@),
        layers_finished(layer_views(old(stack)@)) && item@.finished() ==> layers_finished(
            layer_views(final(stack)@),
        ),
{
    let (ltype, mut items) = stack.pop().unwrap();
    let ghost before = items@;
    items.push(item);
    stack.push((ltype, items));
    proof {
        assert(depth_item_views(items@) =~= depth_item_views(before).push(item@));
        assert(layer_views(stack@) =~= push_entry(layer_views(old(stack)@), item@));
        if layers_finished(layer_views(old(stack)@)) && item@.finished() {
            let n = stack@.len() - 1;
            assert forall|i: int| 0 <= i < stack@.len() implies all_finished(
                (#[trigger] layer_views(stack@)[i]).items,
            ) by {
                if i < n {
                    assert(layer_views(stack@)[i] == layer_views(old(stack)@)[i]);
                } else {
                    assert(all_finished(layer_views(old(stack)@)[n].items));
                    assert forall|j: int| 0 <= j < items@.len() implies (
                    #[trigger] depth_item_views(items@)[j]).finished() by {
                        if j < before.len() {
                            assert(depth_item_views(items@)[j] == layer_views(
                                old(stack)@,
                            )[n].items[j]);
                        }
                    }
                }
            }
        }
    }
}

/// Closes the innermost list of `stack` and adds it to the list around it.
fn decrease_depth(stack: &mut Vec<(ListType, Vec<DepthItem>)>)
    requires
        old(stack)@.len() >= 2,
    ensures
        final(stack)@.len() == old(stack)@.len() - 1,
        layer_views(final(stack)@) == close_layer(layer_views(old(stack)@)),
        layers_finished(layer_views(old(stack)@)) ==> layers_finished(layer_views(final(stack)@)),
{
    let (ltype, items) = stack.pop().unwrap();
    let ghost rest = stack@;
    proof {
        assert(layer_views(rest) =~= layer_views(old(stack)@).drop_last());
        if layers_finished(layer_views(old(stack)@)) {
            assert(all_finished(layer_views(old(stack)@)[old(stack)@.len() - 1].items));
            assert forall|i: int| 0 <= i < rest.len() implies all_finished(
                (#[trigger] layer_views(rest)[i]).items,
            ) by {
                assert(layer_views(rest)[i] == layer_views(old(stack)@)[i]);
            }
        }
    }
    push_item(stack, DepthItem::List(ltype, items));
}

/// Builds the tree that the flat list `items` stands for, each item given
/// with its depth and the kind of its marker.
#[verifier::rlimit(40)]
pub fn process_depths(top_ltype: ListType, items: Vec<(usize, ListType, Vec<Element>)>) -> (r: Vec<
    DepthItem,
>)
    ensures
        depth_item_views(r@) == spec_process_depths(top_ltype, entry_views(items@)),
        (forall|i: int|
            0 <= i < items@.len() ==> all_valid(element_views((#[trigger] items@[i]).2@))
                && all_partial_free(element_views(items@[i].2@))) ==> all_finished(
            depth_item_views(r@),
        ),
{
    let ghost clean = forall|i: int|
        0 <= i < items@.len() ==> all_valid(element_views((#[trigger] items@[i]).2@))
            && all_partial_free(element_views(items@[i].2@));
    let mut stack: Vec<(ListType, Vec<DepthItem>)> = Vec::new();
    stack.push((top_ltype, Vec::new()));
    let mut items = items;
    let ghost entries = entry_views(items@);
    // The items are taken from the end of the list, so it is reversed first.
    let mut reversed: Vec<(usize, ListType, Vec<Element>)> = Vec::new();
    let ghost all = items@;
    while items.len() > 0
        invariant
            reversed@.len() + items@.len() == all.len(),
            forall|j: int| 0 <= j < items@.len() ==> items@[j] == all[j],
            forall|j: int| 0 <= j < reversed@.len() ==> reversed@[j] == all[all.len() - 1 - j],
        decreases items@.len(),
    {
        let item = items.pop().unwrap();
        reversed.push(item);
    }
    let mut previous: usize = 0;
    let ghost mut done: int = 0;
    proof {
        assert(depth_item_views(stack@[0].1@) =~= Seq::empty());
        assert(layer_views(stack@) =~= seq![SpecLayer { ltype: top_ltype, items: Seq::empty() }]);
        assert(all_finished(layer_views(stack@)[0].items));
    }
    while reversed.len() > 0
        invariant
            entries == entry_views(all),
            0 <= done <= all.len(),
            reversed@.len() == all.len() - done,
            forall|j: int| 0 <= j < reversed@.len() ==> reversed@[j] == all[all.len() - 1 - j],
            stack@.len() >= 1,
            stack@.len() == previous + 1,
            clean ==> layers_finished(layer_views(stack@)),
            clean == (forall|i: int|
                0 <= i < all.len() ==> all_valid(element_views((#[trigger] all[i]).2@))
                    && all_partial_free(element_views(all[i].2@))),
            fold_depths(entries, done, layer_views(stack@)) == fold_depths(
                entries,
                0,
                seq![SpecLayer { ltype: top_ltype, items: Seq::empty() }],
            ),
        decreases reversed@.len(),
    {
        let (depth, ltype, elements) = reversed.pop().unwrap();
        proof {
            assert((depth, ltype, elements) == all[done]);
            assert(entries[done] == SpecDepthEntry {
                depth: depth as nat,
                ltype,
                elements: element_views(elements@),
            });
        }
        // Open or close lists until the stack is as deep as the item asks.
        if depth > previous {
            let ghost start = layer_views(stack@);
            let mut opened: usize = previous;
            while opened < depth
                invariant
                    previous <= opened <= depth,
                    stack@.len() == opened + 1,
                    clean ==> layers_finished(layer_views(stack@)),
                    open_layers(layer_views(stack@), ltype, (depth - opened) as nat)
                        == open_layers(start, ltype, (depth - previous) as nat),
                decreases depth - opened,
            {
                let ghost before = layer_views(stack@);
                stack.push((ltype, Vec::new()));
                proof {
                    assert(depth_item_views(stack@.last().1@) =~= Seq::empty());
                    assert(layer_views(stack@) =~= before.push(
                        SpecLayer { ltype, items: Seq::empty() },
                    ));
                    if clean {
                        assert forall|i: int| 0 <= i < stack@.len() implies all_finished(
                            (#[trigger] layer_views(stack@)[i]).items,
                        ) by {
                            if i < before.len() {
                                assert(layer_views(stack@)[i] == before[i]);
                            }
                        }
                    }
                }
                opened += 1;
            }
        } else {
            let ghost start = layer_views(stack@);
            let mut closed: usize = previous;
            while closed > depth
                invariant
                    depth <= closed <= previous,
                    stack@.len() == closed + 1,
                    clean ==> layers_finished(layer_views(stack@)),
                    close_layers(layer_views(stack@), (closed - depth) as nat) == close_layers(
                        start,
                        (previous - depth) as nat,
                    ),
                decreases closed,
            {
                decrease_depth(&mut stack);
                closed -= 1;
            }
        }
        push_item(&mut stack, DepthItem::Item(elements));
        previous = depth;
        proof {
            done = done + 1;
        }
    }
    // Close the lists that are still open.
    let ghost start = layer_views(stack@);
    while stack.len() > 1
        invariant
            stack@.len() >= 1,
            clean ==> layers_finished(layer_views(stack@)),
            close_layers(layer_views(stack@), stack@.len() as nat) == close_layers(
                start,
                start.len(),
            ),
        decreases stack@.len(),
    {
        decrease_depth(&mut stack);
        proof {
            let n = stack@.len() as nat;
            lemma_close_extra(layer_views(stack@), n);
        }
    }
    proof {
        if clean {
            assert(all_finished(layer_views(stack@)[0].items));
        }
    }
    let (_, list) = stack.pop().unwrap();
    list
}

/// Closing more lists than are open closes all but the outermost.
proof fn lemma_close_extra(stack: Seq<SpecLayer>, count: nat)
    requires
        count >= stack.len(),
        stack.len() >= 1,
    ensures
        close_layers(stack, count) == close_layers(stack, (count + 1) as nat),
    decreases stack.len(),
{
    if stack.len() > 1 {
        lemma_close_extra(close_layer(stack), (count - 1) as nat);
    }
}

} // verus!
