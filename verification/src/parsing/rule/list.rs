//! The rule for bulleted and numbered lists.

use crate::parsing::collect::collect_consume;
use crate::parsing::depth::{
    all_finished, close_layer, close_layers, depth_item_views, entry_views, fold_depths,
    open_layers, place, process_depths, push_entry, shaped_for, DepthItem, SpecDepthEntry,
    SpecDepthItem, SpecLayer,
};
use crate::parsing::grammar;
use crate::parsing::grammar::{elements_ok, Source};
use crate::parsing::parser::{AcceptsPartial, ParseCondition, Parser};
use crate::parsing::result::{
    elements_result, Elements, Outcome, ParseSuccess, ParseWarning, ParseWarningKind,
};
use crate::parsing::token::Token;
use crate::tree::container::ListType;
use crate::tree::element::{
    element_views, list_item_views, Element, ListItem, SpecElement, SpecListItem,
};
use vstd::prelude::*;

verus! {

/// The kind of list that a marker opens.
pub open spec fn list_type_of(token: Token) -> Option<ListType> {
    match token {
        Token::BulletItem => Some(ListType::Bullet),
        Token::NumberedItem => Some(ListType::Numbered),
        _ => None,
    }
}

/// The kind of list that a marker opens.
pub fn get_list_type(token: Token) -> (r: Option<ListType>)
    ensures
        r == list_type_of(token),
{
    match token {
        Token::BulletItem => Some(ListType::Bullet),
        Token::NumberedItem => Some(ListType::Numbered),
        _ => None,
    }
}

/// What ends an item line: the end of the line.
pub open spec fn list_close() -> Seq<ParseCondition> {
    seq![
        ParseCondition::CurrentToken(Token::LineBreak),
        ParseCondition::CurrentToken(Token::InputEnd),
    ]
}

/// What an item line cannot hold: the end of the paragraph.
pub open spec fn list_invalid() -> Seq<ParseCondition> {
    seq![ParseCondition::CurrentToken(Token::ParagraphBreak)]
}

/// The list element that a depth list of kind `ltype` stands for.
pub open spec fn build_list(list: Seq<SpecDepthItem>, ltype: ListType) -> SpecElement
    decreases list,
{
    SpecElement::List {
        ltype,
        items: Seq::new(
            list.len(),
            |i: int|
                if 0 <= i < list.len() {
                    build_item(list[i])
                } else {
                    SpecListItem::Elements(Seq::empty())
                },
        ),
    }
}

/// The list item that an entry of a depth list stands for.
pub open spec fn build_item(item: SpecDepthItem) -> SpecListItem
    decreases item,
{
    match item {
        SpecDepthItem::Item(elements) => SpecListItem::Elements(elements),
        SpecDepthItem::List(ltype, list) => SpecListItem::SubList(Box::new(build_list(list, ltype))),
    }
}

/// Whether an item at depth `depth` with a marker of kind `ltype` joins a
/// list of another kind, where `open` holds the kinds of the lists that the
/// item before stands in, from the outermost on.
pub open spec fn kind_mismatch(open: Seq<ListType>, depth: nat, ltype: ListType) -> bool {
    depth < open.len() && open[depth as int] != ltype
}

/// The kinds of the lists that an item at depth `depth` with a marker of
/// kind `ltype` stands in, from the outermost on: deeper lists than the item
/// before stood in are opened with the kind of its marker, and the lists
/// down to its depth keep their kinds.
pub open spec fn open_after(open: Seq<ListType>, depth: nat, ltype: ListType) -> Seq<ListType> {
    if depth < open.len() {
        open.subrange(0, depth as int + 1)
    } else {
        open + Seq::new((depth + 1 - open.len()) as nat, |i: int| ltype)
    }
}

/// The kinds of the lists that the last of the lines `entries` stands in,
/// from the outermost on; none before the first line.
pub open spec fn open_kinds(entries: Seq<SpecDepthEntry>) -> Seq<ListType>
    decreases entries.len(),
{
    if entries.len() == 0 {
        Seq::empty()
    } else {
        open_after(open_kinds(entries.drop_last()), entries.last().depth, entries.last().ltype)
    }
}

/// Brings the kinds of the open lists up to date for an item at depth
/// `depth` with a marker of kind `ltype`.
fn join_open(open: &mut Vec<ListType>, depth: usize, ltype: ListType)
    ensures
        final(open)@ == open_after(old(open)@, depth as nat, ltype),
{
    if depth < open.len() {
        open.truncate(depth + 1);
    } else {
        let ghost before = open@;
        while open.len() <= depth
            invariant
                before.len() <= open@.len() <= depth + 1,
                open@ == before + Seq::new((open@.len() - before.len()) as nat, |i: int| ltype),
            decreases depth + 1 - open@.len(),
        {
            open.push(ltype);
            assert(open@ =~= before + Seq::new(
                (open@.len() - before.len()) as nat,
                |i: int| ltype,
            ));
        }
        assert(before + Seq::new(0, |i: int| ltype) =~= before);
    }
}

/// The kind of the first marker of the list that starts at `pos`.
pub open spec fn first_marker_type(src: Source, pos: int) -> Option<ListType> {
    if src.has(pos + 1) && src.tokens[pos + 1].token == Token::Whitespace && src.has(pos + 2) {
        list_type_of(src.tokens[pos + 2].token)
    } else if src.has(pos + 1) {
        list_type_of(src.tokens[pos + 1].token)
    } else {
        None
    }
}

/// Parses a list; the cursor is at the start of the input or at the newline
/// before the first item. Where no item line follows, the rule fails. The
/// list has the kind of its first marker; an item whose marker is of another
/// kind than the list that it joins is kept, and a warning tells of it.
#[verifier::rlimit(40)]
pub fn try_consume_fn(parser: &mut Parser) -> (r: Result<ParseSuccess<Elements>, ParseWarning>)
    requires
        old(parser).wf(),
    ensures
        final(parser).wf(),
        final(parser).moved_from(old(parser)),
        final(parser).pos >= old(parser).pos,
        r matches Ok(success) ==> success.item.one_at_most(),
        (Outcome { result: elements_result(r), pos: final(parser).pos as int }) == grammar::list(
            old(parser).source(),
            old(parser).pos as int,
            old(parser).rule,
        ),
        r matches Ok(success) ==> elements_ok(success.item@, old(parser).accepts_partial),
        r matches Ok(success) ==> success.item@.len() == 1 && success.item@[0] is List && Some(
            success.item@[0]->List_ltype,
        ) == first_marker_type(old(parser).source(), old(parser).pos as int),
    decreases old(parser).remaining(), 16int, 0int,
{
    let token = parser.current().token;
    if !(token == Token::InputStart || token == Token::LineBreak) {
        return Err(parser.make_warn(ParseWarningKind::RuleFailed));
    }
    let _ = parser.step();
    let saved = parser.accepts_partial();
    let rule = parser.rule();
    let mut top_list_type: Option<ListType> = None;
    let mut open: Vec<ListType> = Vec::new();

    let mut depths: Vec<(usize, ListType, Vec<Element>)> = Vec::new();
    let mut exceptions: Vec<ParseWarning> = Vec::new();
    let ghost src = parser.source();
    let ghost start = old(parser).pos as int;
    assert(entry_views(depths@) =~= Seq::<SpecDepthEntry>::empty());
    loop
        invariant_except_break
            depths@.len() == 0 ==> parser.pos == start + 1 && top_list_type is None,
            grammar::list_items(
                src,
                parser.pos as int,
                rule,
                top_list_type,
                entry_views(depths@),
                exceptions@,
            ) == grammar::list(src, start, rule),
        invariant
            parser.wf(),
            open@ == open_kinds(entry_views(depths@)),
            parser.moved_from(old(parser)),
            parser.pos > start,
            start == old(parser).pos,
            parser.rule == rule,
            saved == parser.accepts_partial,
            src == parser.source(),
            top_list_type is None ==> depths@.len() == 0,
            depths@.len() > 0 ==> top_list_type == first_marker_type(src, start),
            forall|i: int|
                0 <= i < depths@.len() ==> crate::tree::valid::all_valid(
                    element_views((#[trigger] depths@[i]).2@),
                ) && crate::tree::valid::all_partial_free(element_views(depths@[i].2@)),
        ensures
            parser.wf(),
            parser.moved_from(old(parser)),
            parser.pos > start,
            saved == parser.accepts_partial,
            depths@.len() > 0 ==> top_list_type == first_marker_type(src, start),
            forall|i: int|
                0 <= i < depths@.len() ==> crate::tree::valid::all_valid(
                    element_views((#[trigger] depths@[i]).2@),
                ) && crate::tree::valid::all_partial_free(element_views(depths@[i].2@)),
            grammar::list_end(
                src,
                parser.pos as int,
                rule,
                top_list_type,
                entry_views(depths@),
                exceptions@,
            ) == grammar::list(src, start, rule),
        decreases parser.remaining(),
    {
        let current = parser.current();
        let depth = match current.token {
            Token::Whitespace => {
                let spaces = current.slice.as_str();
                let _ = parser.step();
                spaces.unicode_len()
            },
            Token::BulletItem | Token::NumberedItem => 0,
            _ => {
                break ;
            },
        };

        let current = parser.current();
        let list_type = match get_list_type(current.token) {
            Some(list_type) => {
                if top_list_type.is_none() {
                    top_list_type = Some(list_type);
                }
                list_type
            },
            None => {
                break ;
            },
        };
        let mismatch = if depth < open.len() && open[depth] != list_type {
            Some(parser.make_warn(ParseWarningKind::ListTypeMismatch))
        } else {
            None
        };
        let _ = parser.step();

        let current = parser.current();
        if current.token != Token::Whitespace {
            break ;
        }
        let _ = parser.step();

        let close_conditions = [
            ParseCondition::current(Token::LineBreak),
            ParseCondition::current(Token::InputEnd),
        ];
        let invalid_conditions = [ParseCondition::current(Token::ParagraphBreak)];
        assert(close_conditions@ =~= list_close());
        assert(invalid_conditions@ =~= list_invalid());
        parser.set_accepts_partial(AcceptsPartial::Nothing);
        let collected = collect_consume(
            parser,
            rule,
            close_conditions.as_slice(),
            invalid_conditions.as_slice(),
            None,
        );
        parser.set_accepts_partial(saved);
        let elements = match collected {
            Ok(success) => {
                let ParseSuccess { item, exceptions: mut more, paragraph_safe: _ } = success;
                match mismatch {
                    Some(warning) => exceptions.push(warning),
                    None => {},
                }
                exceptions.append(&mut more);
                item
            },
            Err(warning) => {
                return Err(warning);
            },
        };
        join_open(&mut open, depth, list_type);

        let ghost before = depths@;
        depths.push((depth, list_type, elements));
        proof {
            assert(entry_views(depths@) =~= entry_views(before).push(
                SpecDepthEntry {
                    depth: depth as nat,
                    ltype: list_type,
                    elements: element_views(elements@),
                },
            ));
            assert(entry_views(depths@).drop_last() =~= entry_views(before));
        }
    }

    let top = match top_list_type {
        Some(top) => top,
        None => {
            return Err(parser.make_warn(ParseWarningKind::RuleFailed));
        },
    };
    if depths.len() == 0 {
        return Err(parser.make_warn(ParseWarningKind::RuleFailed));
    }

    let depth_list = process_depths(top, depths);
    let element = build_list_element(depth_list, top);
    proof {
        assert(seq![element@][0] == element@);
    }
    Ok(ParseSuccess { item: Elements::Single(element), exceptions, paragraph_safe: false })
}

/// Builds the list element that a depth list of kind `top_ltype` stands for.
pub fn build_list_element(list: Vec<DepthItem>, top_ltype: ListType) -> (r: Element)
    ensures
        r@ == build_list(depth_item_views(list@), top_ltype),
        all_finished(depth_item_views(list@)) ==> r@.valid() && r@.partial_free(),
    decreases list,
{
    let ghost all = list@;
    let ghost views = depth_item_views(all);
    let ghost whole = list;
    let mut rest = list;
    let mut reversed: Vec<DepthItem> = Vec::new();
    while rest.len() > 0
        invariant
            reversed@.len() + rest@.len() == all.len(),
            forall|j: int| 0 <= j < rest@.len() ==> rest@[j] == all[j],
            forall|j: int| 0 <= j < reversed@.len() ==> reversed@[j] == all[all.len() - 1 - j],
        decreases rest@.len(),
    {
        let item = rest.pop().unwrap();
        reversed.push(item);
    }
    let mut items: Vec<ListItem> = Vec::new();
    while reversed.len() > 0
        invariant
            views == depth_item_views(all),
            all == whole@,
            whole == list,
            reversed@.len() + items@.len() == all.len(),
            forall|j: int| 0 <= j < reversed@.len() ==> reversed@[j] == all[all.len() - 1 - j],
            forall|j: int| 0 <= j < items@.len() ==> (#[trigger] items@[j])@ == build_item(views[j]),
            all_finished(views) ==> forall|j: int|
                0 <= j < items@.len() ==> (#[trigger] items@[j])@.valid()
                    && items@[j]@.partial_free(),
        decreases reversed@.len(),
    {
        let ghost index = items@.len() as int;
        let item = reversed.pop().unwrap();
        assert(item == all[index]);
        assert(item@ == views[index]);
        let built = match item {
            DepthItem::Item(elements) => ListItem::Elements(elements),
            DepthItem::List(ltype, list) => {
                ListItem::SubList(Box::new(build_list_element(list, ltype)))
            },
        };
        proof {
            if all_finished(views) {
                assert(views[index].finished());
            }
        }
        items.push(built);
    }

    let element = Element::List { ltype: top_ltype, items };
    proof {
        assert(list_item_views(items@) =~= build_list(views, top_ltype)->List_items);
        if all_finished(views) {
            assert forall|i: int| 0 <= i < items@.len() implies (#[trigger] list_item_views(
                items@,
            )[i]).valid() && list_item_views(items@)[i].partial_free() by {
                assert(list_item_views(items@)[i] == items@[i]@);
            }
        }
    }
    element
}

/// The kinds of the lists of a stack, from the outermost on.
pub open spec fn layer_kinds(stack: Seq<SpecLayer>) -> Seq<ListType> {
    Seq::new(stack.len(), |i: int| stack[i].ltype)
}

/// The stack of lists after the lines `entries` of a list of kind `top`.
pub open spec fn stack_after(top: ListType, entries: Seq<SpecDepthEntry>) -> Seq<SpecLayer>
    decreases entries.len(),
{
    if entries.len() == 0 {
        seq![SpecLayer { ltype: top, items: Seq::empty() }]
    } else {
        place(stack_after(top, entries.drop_last()), entries.last())
    }
}

/// Lists that are opened have the kind they are opened with, and the lists
/// around them keep theirs.
proof fn lemma_opened_kinds(stack: Seq<SpecLayer>, ltype: ListType, count: nat)
    ensures
        layer_kinds(open_layers(stack, ltype, count)) == layer_kinds(stack) + Seq::new(
            count,
            |i: int| ltype,
        ),
    decreases count,
{
    if count > 0 {
        let next = stack.push(SpecLayer { ltype, items: Seq::empty() });
        lemma_opened_kinds(next, ltype, (count - 1) as nat);
        assert(layer_kinds(next) + Seq::new((count - 1) as nat, |i: int| ltype) =~= layer_kinds(
            stack,
        ) + Seq::new(count, |i: int| ltype));
    } else {
        assert(layer_kinds(stack) + Seq::new(0, |i: int| ltype) =~= layer_kinds(stack));
    }
}

/// The lists that stay open when others are closed keep their kinds.
proof fn lemma_closed_kinds(stack: Seq<SpecLayer>, count: nat)
    requires
        count < stack.len(),
    ensures
        layer_kinds(close_layers(stack, count)) == layer_kinds(stack).subrange(
            0,
            stack.len() - count,
        ),
    decreases count,
{
    if count == 0 || stack.len() <= 1 {
        assert(layer_kinds(stack).subrange(0, stack.len() as int) =~= layer_kinds(stack));
    } else {
        let next = close_layer(stack);
        assert(layer_kinds(next) =~= layer_kinds(stack).drop_last());
        lemma_closed_kinds(next, (count - 1) as nat);
        assert(layer_kinds(next).subrange(0, next.len() - (count - 1)) =~= layer_kinds(
            stack,
        ).subrange(0, stack.len() - count));
    }
}

/// The kinds of the lists that are open after an entry is placed are those
/// that the rule for lists keeps.
proof fn lemma_placed_kinds(stack: Seq<SpecLayer>, entry: SpecDepthEntry)
    requires
        stack.len() >= 1,
    ensures
        layer_kinds(shaped_for(stack, entry)) == open_after(
            layer_kinds(stack),
            entry.depth,
            entry.ltype,
        ),
        layer_kinds(place(stack, entry)) == layer_kinds(shaped_for(stack, entry)),
        shaped_for(stack, entry).len() == entry.depth + 1,
{
    let level = stack.len() - 1;
    if entry.depth > level {
        lemma_opened_kinds(stack, entry.ltype, (entry.depth - level) as nat);
    } else {
        lemma_closed_kinds(stack, (level - entry.depth) as nat);
    }
    let shaped = shaped_for(stack, entry);
    assert(layer_kinds(shaped).len() == entry.depth + 1);
    assert(layer_kinds(place(stack, entry)) =~= layer_kinds(shaped));
}

/// The kinds that the rule for lists keeps are the kinds of the lists that
/// are open in the tree, where the list has the kind of its first line.
proof fn lemma_open_kinds_are_layer_kinds(top: ListType, entries: Seq<SpecDepthEntry>)
    requires
        entries.len() > 0,
        entries[0].ltype == top,
    ensures
        layer_kinds(stack_after(top, entries)) == open_kinds(entries),
        stack_after(top, entries).len() >= 1,
    decreases entries.len(),
{
    let before = entries.drop_last();
    let entry = entries.last();
    if before.len() == 0 {
        let start = seq![SpecLayer { ltype: top, items: Seq::empty() }];
        assert(stack_after(top, before) == start);
        assert(open_kinds(before) == Seq::<ListType>::empty());
        assert(entry == entries[0]);
        lemma_placed_kinds(start, entry);
        assert(layer_kinds(start) =~= seq![top]);
        assert(open_after(seq![top], entry.depth, top) =~= open_after(
            Seq::empty(),
            entry.depth,
            top,
        ));
    } else {
        lemma_open_kinds_are_layer_kinds(top, before);
        lemma_placed_kinds(stack_after(top, before), entry);
    }
}

/// Folding the lines from the `i`th on, over the stack after the lines
/// before it, gives what folding all of them gives.
proof fn lemma_fold_from(top: ListType, entries: Seq<SpecDepthEntry>, i: int)
    requires
        0 <= i <= entries.len(),
    ensures
        fold_depths(entries, i, stack_after(top, entries.take(i))) == fold_depths(
            entries,
            0,
            seq![SpecLayer { ltype: top, items: Seq::empty() }],
        ),
    decreases i,
{
    if i > 0 {
        lemma_fold_from(top, entries, i - 1);
        assert(entries.take(i).drop_last() =~= entries.take(i - 1));
        assert(entries.take(i).last() == entries[i - 1]);
    }
}

/// The lists that are open when the tree of a list is built, after all its
/// lines, are those that placing the lines one after another leaves open.
pub proof fn lemma_tree_places_lines(top: ListType, entries: Seq<SpecDepthEntry>)
    ensures
        fold_depths(entries, 0, seq![SpecLayer { ltype: top, items: Seq::empty() }])
            == stack_after(top, entries),
{
    lemma_fold_from(top, entries, entries.len() as int);
    assert(entries.take(entries.len() as int) =~= entries);
    assert(fold_depths(entries, entries.len() as int, stack_after(top, entries)) == stack_after(
        top,
        entries,
    ));
}

/// A line of a list is noted as being of another kind exactly where the
/// list that it joins in the tree has another kind than its marker. The
/// list as a whole has the kind of its first line.
pub proof fn lemma_mismatch_is_of_joined_list(entries: Seq<SpecDepthEntry>, i: int)
    requires
        0 <= i < entries.len(),
    ensures
        kind_mismatch(open_kinds(entries.take(i)), entries[i].depth, entries[i].ltype) <==> (
        shaped_for(stack_after(entries[0].ltype, entries.take(i)), entries[i]).last().ltype
            != entries[i].ltype),
{
    let top = entries[0].ltype;
    let entry = entries[i];
    let before = entries.take(i);
    let stack = stack_after(top, before);
    if i == 0 {
        assert(stack == seq![SpecLayer { ltype: top, items: Seq::empty() }]);
        lemma_placed_kinds(stack, entry);
    } else {
        lemma_open_kinds_are_layer_kinds(top, before);
        lemma_placed_kinds(stack, entry);
    }
    let shaped = shaped_for(stack, entry);
    assert(shaped.last().ltype == layer_kinds(shaped)[entry.depth as int]);
}

} // verus!
