//! HTML rendering of form inputs.

use crate::render::html::builder::{attr, attr_map, attribute_html, attributes_html};
use crate::render::html::context::{ArticleHandle, HtmlContext};
use crate::tree::attribute::{AttributeMap, SpecAttributes};
use vstd::prelude::*;

verus! {

/// The `<input>` tag of a radio button.
pub open spec fn radio_button_html(name: &str, checked: bool, attributes: SpecAttributes) -> Seq<
    char,
> {
    "<input"@ + attribute_html("name"@, seq![name]) + attribute_html("type"@, seq!["radio"]) + (
    if checked {
        attribute_html("checked"@, Seq::empty())
    } else {
        Seq::empty()
    }) + attributes_html(attributes) + ">"@
}

/// Writes the `<input>` tag of a radio button.
pub fn render_radio_button<H: ArticleHandle>(
    ctx: &mut HtmlContext<H>,
    name: &str,
    checked: bool,
    attributes: &AttributeMap,
)
    ensures
        final(ctx).current() == old(ctx).current() + radio_button_html(name, checked, attributes@),
        final(ctx).same_but_current(old(ctx)),
{
    ctx.push_str("<input");

    let name_parts = [name];
    let type_parts = ["radio"];
    let no_parts: [&str; 0] = [];
    assert(name_parts@ =~= seq![name]);
    assert(type_parts@ =~= seq!["radio"]);
    assert(no_parts@ =~= Seq::<&str>::empty());
    attr(ctx, "name", name_parts.as_slice());
    attr(ctx, "type", type_parts.as_slice());
    let ghost before = ctx.current();
    if checked {
        attr(ctx, "checked", no_parts.as_slice());
    } else {
        assert(before + Seq::<char>::empty() =~= before);
    }
    attr_map(ctx, attributes);
    ctx.push_str(">");
    assert(ctx.current() =~= old(ctx).current() + radio_button_html(name, checked, attributes@));
}

} // verus!
