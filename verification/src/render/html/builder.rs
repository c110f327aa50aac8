//! Writing HTML tags and escaped text into the context.

use crate::render::html::context::{ArticleHandle, HtmlContext};
use crate::text::chars_of;
use crate::tree::attribute::{AttributeMap, SpecAttributes};
use vstd::prelude::*;

verus! {

/// What stands for `c` in HTML text and attribute values.
pub open spec fn escaped_char(c: char) -> Seq<char> {
    if c == '&' {
        "&amp;"@
    } else if c == '<' {
        "&lt;"@
    } else if c == '>' {
        "&gt;"@
    } else if c == '"' {
        "&quot;"@
    } else if c == '\'' {
        "&#39;"@
    } else {
        seq![c]
    }
}

/// `text` with the characters that mean something in HTML replaced by what
/// stands for them.
pub open spec fn escaped(text: Seq<char>) -> Seq<char>
    decreases text.len(),
{
    if text.len() == 0 {
        Seq::empty()
    } else {
        escaped(text.drop_last()) + escaped_char(text.last())
    }
}

/// The parts of an attribute value, escaped, in a row.
pub open spec fn escaped_parts(parts: Seq<&str>) -> Seq<char>
    decreases parts.len(),
{
    if parts.len() == 0 {
        Seq::empty()
    } else {
        escaped_parts(parts.drop_last()) + escaped(parts.last()@)
    }
}

/// An attribute as it stands in a tag: a space and the key, and the value in
/// quotes where there is one.
pub open spec fn attribute_html(key: Seq<char>, value_parts: Seq<&str>) -> Seq<char> {
    if value_parts.len() == 0 {
        " "@ + key
    } else {
        " "@ + key + "=\""@ + escaped_parts(value_parts) + "\""@
    }
}

/// The attributes of a map as they stand in a tag, in the order in which
/// the map stores them.
pub open spec fn attributes_html(entries: SpecAttributes) -> Seq<char>
    decreases entries.len(),
{
    if entries.len() == 0 {
        Seq::empty()
    } else {
        attributes_html(entries.drop_last()) + (" "@ + entries.last().0 + "=\""@ + escaped(
            entries.last().1,
        ) + "\""@)
    }
}

/// Writes `s` with the characters that mean something in HTML escaped.
pub fn push_escaped<H: ArticleHandle>(ctx: &mut HtmlContext<H>, s: &str)
    ensures
        final(ctx).current() == old(ctx).current() + escaped(s@),
        final(ctx).same_but_current(old(ctx)),
{
    let chars = chars_of(s);
    let mut i: usize = 0;
    proof {
        assert(chars@.subrange(0, 0) =~= Seq::<char>::empty());
        assert(ctx.current() + Seq::<char>::empty() =~= ctx.current());
    }
    while i < chars.len()
        invariant
            i <= chars.len(),
            chars@ == s@,
            ctx.current() == old(ctx).current() + escaped(chars@.subrange(0, i as int)),
            ctx.same_but_current(old(ctx)),
        decreases chars.len() - i,
    {
        let c = chars[i];
        let ghost before = ctx.current();
        proof {
            assert(chars@.subrange(0, i + 1).drop_last() =~= chars@.subrange(0, i as int));
            assert(chars@.subrange(0, i + 1).last() == c);
        }
        if c == '&' {
            ctx.push_str("&amp;");
        } else if c == '<' {
            ctx.push_str("&lt;");
        } else if c == '>' {
            ctx.push_str("&gt;");
        } else if c == '"' {
            ctx.push_str("&quot;");
        } else if c == '\'' {
            ctx.push_str("&#39;");
        } else {
            ctx.push(c);
            assert(before.push(c) =~= before + seq![c]);
        }
        assert(ctx.current() =~= old(ctx).current() + escaped(chars@.subrange(0, i + 1)));
        i += 1;
    }
    assert(chars@.subrange(0, chars@.len() as int) =~= chars@);
}

/// Writes an attribute into the tag that is being opened.
pub fn attr<H: ArticleHandle>(ctx: &mut HtmlContext<H>, key: &str, value_parts: &[&str])
    ensures
        final(ctx).current() == old(ctx).current() + attribute_html(key@, value_parts@),
        final(ctx).same_but_current(old(ctx)),
{
    ctx.push_str(" ");
    ctx.push_str(key);
    if value_parts.len() > 0 {
        ctx.push_str("=\"");
        let ghost start = ctx.current();
        let mut i: usize = 0;
        proof {
            assert(value_parts@.subrange(0, 0) =~= Seq::<&str>::empty());
            assert(start + Seq::<char>::empty() =~= start);
        }
        while i < value_parts.len()
            invariant
                i <= value_parts.len(),
                ctx.current() == start + escaped_parts(value_parts@.subrange(0, i as int)),
                ctx.same_but_current(old(ctx)),
            decreases value_parts.len() - i,
        {
            let part: &str = value_parts[i];
            push_escaped(ctx, part);
            proof {
                assert(value_parts@.subrange(0, i + 1).drop_last() =~= value_parts@.subrange(
                    0,
                    i as int,
                ));
                assert(value_parts@.subrange(0, i + 1).last() == part);
                assert(ctx.current() =~= start + escaped_parts(value_parts@.subrange(0, i + 1)));
            }
            i += 1;
        }
        ctx.push_str("\"");
        proof {
            assert(value_parts@.subrange(0, value_parts@.len() as int) =~= value_parts@);
            assert(ctx.current() =~= old(ctx).current() + attribute_html(key@, value_parts@));
        }
    } else {
        assert(ctx.current() =~= old(ctx).current() + attribute_html(key@, value_parts@));
    }
}

/// Writes the attributes of `attributes` into the tag that is being opened.
pub fn attr_map<H: ArticleHandle>(ctx: &mut HtmlContext<H>, attributes: &AttributeMap)
    ensures
        final(ctx).current() == old(ctx).current() + attributes_html(attributes@),
        final(ctx).same_but_current(old(ctx)),
{
    let count = attributes.len();
    let ghost entries = attributes@;
    let mut i: usize = 0;
    proof {
        assert(entries.subrange(0, 0) =~= Seq::<(Seq<char>, Seq<char>)>::empty());
        assert(ctx.current() + Seq::<char>::empty() =~= ctx.current());
    }
    while i < count
        invariant
            i <= count,
            count == entries.len(),
            entries == attributes@,
            ctx.current() == old(ctx).current() + attributes_html(entries.subrange(0, i as int)),
            ctx.same_but_current(old(ctx)),
        decreases count - i,
    {
        let key = attributes.key_at(i);
        let value = attributes.value_at(i);
        ctx.push_str(" ");
        ctx.push_str(key.as_str());
        ctx.push_str("=\"");
        push_escaped(ctx, value.as_str());
        ctx.push_str("\"");
        proof {
            assert(entries.subrange(0, i + 1).drop_last() =~= entries.subrange(0, i as int));
            assert(entries.subrange(0, i + 1).last() == entries[i as int]);
            assert(ctx.current() =~= old(ctx).current() + attributes_html(
                entries.subrange(0, i + 1),
            ));
        }
        i += 1;
    }
    assert(entries.subrange(0, entries.len() as int) =~= entries);
}

} // verus!
