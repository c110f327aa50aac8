//! Plain text rendering of elements.

use crate::render::handle::{Handle, ModuleRenderMode};
use crate::render::text::context::{TextContext, TextState};
use crate::text::{chars_of, decimal, decimal_text, str_eq, string_of};
use crate::tree::attribute::lookup;
use crate::tree::container::{ContainerType, ListType};
use crate::tree::element::{
    definition_item_views, element_views, list_item_views, Element, ListItem,
    SpecDefinitionListItem, SpecElement, SpecListItem,
};
use crate::tree::link::{LinkLabel, LinkLocation, SpecLinkLabel, SpecLinkLocation};
use crate::url::{is_url, spec_is_url};
use vstd::prelude::*;

verus! {

/// What every line of a heading of the given level starts with.
pub open spec fn heading_prefix(level: u8) -> Seq<char> {
    match level {
        1 => "+ "@,
        2 => "++ "@,
        3 => "+++ "@,
        4 => "++++ "@,
        5 => "+++++ "@,
        6 => "++++++ "@,
        _ => ""@,
    }
}

/// How a container is laid out: whether it stands on lines of its own, and
/// what those lines start with.
pub open spec fn container_layout(ctype: ContainerType) -> (bool, Option<Seq<char>>) {
    match ctype {
        ContainerType::Div | ContainerType::Paragraph => (true, None),
        ContainerType::Blockquote => (true, Some("    "@)),
        ContainerType::Header(level) => (true, Some(heading_prefix(level))),
        _ => (false, None),
    }
}

/// The URL that a link location stands for.
pub open spec fn location_url(host: &Handle, target: SpecLinkLocation) -> Seq<char> {
    match target {
        SpecLinkLocation::Url(url) => url,
        SpecLinkLocation::Page { site: None, page } => "/"@ + page,
        SpecLinkLocation::Page { site: Some(site), page } => host.site_url(site) + "/"@ + page,
    }
}

/// The text that a link shows.
pub open spec fn label_text(host: &Handle, url: Seq<char>, label: SpecLinkLabel) -> Seq<char> {
    match label {
        SpecLinkLabel::Text(text) => text,
        SpecLinkLabel::Url(Some(text)) => text,
        SpecLinkLabel::Url(None) => url,
        SpecLinkLabel::Page => host.page_title(url),
    }
}

/// The URL that is shown for `url`: `#` for the empty script link; anchors
/// and URLs with a scheme as they are; any other path behind the URL of the
/// site, with exactly one slash between them.
pub open spec fn full_url(host: &Handle, site: Seq<char>, url: Seq<char>) -> Seq<char> {
    if url == "javascript:;"@ {
        "#"@
    } else if url.len() > 0 && url[0] == '#' {
        url
    } else if spec_is_url(url) {
        url
    } else {
        let base = host.site_url(site);
        let slash_first = url.len() > 0 && url[0] == '/';
        let slashed = if !(base.len() > 0 && base.last() == '/') && !slash_first {
            base.push('/')
        } else {
            base
        };
        let trimmed = if slashed.len() > 0 && slashed.last() == '/' && slash_first {
            slashed.drop_last()
        } else {
            slashed
        };
        trimmed + url
    }
}

/// The state after the URL `url` has been shown behind the text `shown`:
/// nothing is written where the two are the same.
pub open spec fn show_url(st: TextState, url: Seq<char>, shown: Seq<char>) -> TextState {
    if url != shown {
        st.push_str(" ["@).push_str(url).push_str("]"@)
    } else {
        st
    }
}

/// The state after `element` has been rendered from the state `st`.
pub open spec fn render_one(
    host: &Handle,
    site: Seq<char>,
    language: Seq<char>,
    element: SpecElement,
    st: TextState,
) -> TextState
    decreases element, 0nat,
{
    match element {
        SpecElement::Container { ctype, elements, attributes } => {
            if ctype == ContainerType::Hidden {
                st
            } else if ctype == ContainerType::Invisible {
                render_seq(host, site, language, elements, 0, st.set_invisible(true)).set_invisible(
                    st.invisible,
                )
            } else {
                let (add_newlines, prefix) = container_layout(ctype);
                if add_newlines {
                    let opened = match prefix {
                        Some(prefix) => st.push_prefix(prefix),
                        None => st,
                    }.add_newline();
                    let inner = render_seq(host, site, language, elements, 0, opened);
                    match prefix {
                        Some(_) => inner.pop_prefix(),
                        None => inner,
                    }.add_newline()
                } else {
                    render_seq(host, site, language, elements, 0, st)
                }
            }
        },
        SpecElement::Module { name, arguments, body } => st.write(
            host.module_output(name, arguments, body, ModuleRenderMode::Text),
        ),
        SpecElement::Text(text) | SpecElement::Raw(text) | SpecElement::Email(text) => st.push_str(
            text,
        ),
        SpecElement::Anchor { elements, attributes, new_tab } => {
            let inner = render_seq(host, site, language, elements, 0, st);
            match lookup(attributes, "href"@) {
                Some(href) => show_url(inner, full_url(host, site, href), href),
                None => inner,
            }
        },
        SpecElement::Link { target, label, new_tab, interwiki } => {
            let url = location_url(host, target);
            let shown = label_text(host, url, label);
            show_url(st.push_str(shown), full_url(host, site, url), shown)
        },
        SpecElement::List { ltype, items } => render_items(
            host,
            site,
            language,
            ltype,
            items,
            0,
            st.add_newline(),
        ),
        SpecElement::DefinitionList(items) => render_rows(
            host,
            site,
            language,
            items,
            0,
            st.add_newline(),
        ),
        SpecElement::RadioButton { name, checked, attributes } => st.push_str(
            if checked {
                "(*) "@
            } else {
                "( ) "@
            },
        ),
        SpecElement::CheckBox { checked, attributes } => st.push_str(
            if checked {
                "[X] "@
            } else {
                "[ ] "@
            },
        ),
        SpecElement::Collapsible { elements, show_text, hide_text, show_top, show_bottom } => {
            let show = match show_text {
                Some(text) => text,
                None => host.message(language, "collapsible-open"@),
            };
            let hide = match hide_text {
                Some(text) => text,
                None => host.message(language, "collapsible-hide"@),
            };
            let top = st.add_newline().push_str(show).add_newline();
            let top = if show_top {
                top.push_str(hide).add_newline()
            } else {
                top
            };
            let inner = render_seq(host, site, language, elements, 0, top);
            if show_bottom {
                inner.add_newline().push_str(hide).add_newline()
            } else {
                inner
            }
        },
        SpecElement::Color { color, elements } => render_seq(host, site, language, elements, 0, st),
        SpecElement::Code { contents, language: code_language } => st.push_str("```"@).push_str(
            match code_language {
                Some(name) => name,
                None => ""@,
            },
        ).push_str("\n"@).push_str(contents).push_str("\n```"@),
        SpecElement::Html { contents } => st.push_str("```html\n"@).push_str(contents).push_str(
            "\n```"@,
        ),
        SpecElement::Iframe { url, attributes } => st.push_str("[iframe: "@).push_str(url).push_str(
            "]"@,
        ),
        SpecElement::LineBreak => st.add_newline(),
        SpecElement::LineBreaks(count) => st.add_newlines(count),
        SpecElement::HorizontalRule => st.add_newline().push_str("------"@).add_newline(),
        SpecElement::Partial(_) => st,
    }
}

/// The state after the elements from the `i`th on have been rendered.
pub open spec fn render_seq(
    host: &Handle,
    site: Seq<char>,
    language: Seq<char>,
    elements: Seq<SpecElement>,
    i: int,
    st: TextState,
) -> TextState
    decreases elements, elements.len() - i,
{
    if i < 0 || i >= elements.len() {
        st
    } else {
        render_seq(
            host,
            site,
            language,
            elements,
            i + 1,
            render_one(host, site, language, elements[i], st),
        )
    }
}

/// The state after the marker of an item of a list of kind `ltype` has been
/// written: spaces for the depth of the list, then `* ` for a bullet, the
/// number of the item and `. ` in a numbered list, nothing otherwise.
pub open spec fn item_marker(ltype: ListType, st: TextState) -> TextState {
    let indented = st.indent(st.list_depth());
    match ltype {
        ListType::Bullet => indented.push_str("* "@),
        ListType::Numbered => indented.count_item().push_str(
            decimal_text(indented.list_index() as nat),
        ).push_str(". "@),
        ListType::Generic => indented,
    }
}

/// The state after the items of a list from the `i`th on have been rendered:
/// each item on a line of its own behind its marker, each nested list one
/// level deeper.
pub open spec fn render_items(
    host: &Handle,
    site: Seq<char>,
    language: Seq<char>,
    ltype: ListType,
    items: Seq<SpecListItem>,
    i: int,
    st: TextState,
) -> TextState
    decreases items, items.len() - i,
{
    if i < 0 || i >= items.len() {
        st
    } else {
        let next = match items[i] {
            SpecListItem::Elements(elements) => render_seq(
                host,
                site,
                language,
                elements,
                0,
                item_marker(ltype, st),
            ).add_newline(),
            SpecListItem::SubList(list) => render_one(
                host,
                site,
                language,
                *list,
                st.incr_list_depth(),
            ).decr_list_depth(),
        };
        render_items(host, site, language, ltype, items, i + 1, next)
    }
}

/// The state after the rows of a definition list from the `i`th on have been
/// rendered, each as `: key : value` on a line of its own.
pub open spec fn render_rows(
    host: &Handle,
    site: Seq<char>,
    language: Seq<char>,
    items: Seq<SpecDefinitionListItem>,
    i: int,
    st: TextState,
) -> TextState
    decreases items, items.len() - i,
{
    if i < 0 || i >= items.len() {
        st
    } else {
        let key = render_seq(host, site, language, items[i].key, 0, st.push_str(": "@));
        let value = render_seq(host, site, language, items[i].value, 0, key.push_str(" : "@));
        render_rows(host, site, language, items, i + 1, value.add_newline())
    }
}

/// What every line of a heading of the given level starts with.
pub fn level_prefix(level: u8) -> (r: &'static str)
    ensures
        r@ == heading_prefix(level),
{
    match level {
        1 => "+ ",
        2 => "++ ",
        3 => "+++ ",
        4 => "++++ ",
        5 => "+++++ ",
        6 => "++++++ ",
        _ => "",
    }
}

/// Whether the text is not empty and starts with `c`.
fn first_is(chars: &Vec<char>, c: char) -> (r: bool)
    ensures
        r == (chars@.len() > 0 && chars@[0] == c),
{
    chars.len() > 0 && chars[0] == c
}

/// Whether the text is not empty and ends with `c`.
fn last_is(chars: &Vec<char>, c: char) -> (r: bool)
    ensures
        r == (chars@.len() > 0 && chars@.last() == c),
{
    chars.len() > 0 && chars[chars.len() - 1] == c
}

/// The URL that is shown for `url`.
pub fn get_full_url(ctx: &TextContext, url: &str) -> (r: String)
    ensures
        r@ == full_url(ctx.spec_handle(), ctx.spec_info().site@, url@),
{
    let chars = chars_of(url);
    if str_eq(url, "javascript:;") {
        return String::from_str("#");
    }
    if first_is(&chars, '#') {
        return String::from_str(url);
    }
    if is_url(url) {
        return String::from_str(url);
    }
    let site = ctx.info().site.as_str();
    let base = ctx.handle().get_url(site);
    let mut full = chars_of(base.as_str());

    if !last_is(&full, '/') && !first_is(&chars, '/') {
        full.push('/');
    }
    if last_is(&full, '/') && first_is(&chars, '/') {
        let _ = full.pop();
    }
    let mut out = string_of(&full, 0, full.len());
    assert(full@.subrange(0, full@.len() as int) =~= full@);
    out.append(url);
    out
}

/// Shows the URL `url` behind the text `shown`, unless the two are the same.
fn write_url(ctx: &mut TextContext, url: &str, shown: &str)
    ensures
        final(ctx).state() == show_url(old(ctx).state(), url@, shown@),
        final(ctx).same_setting(old(ctx)),
        old(ctx).state().wf() ==> final(ctx).state().wf(),
{
    if !str_eq(url, shown) {
        ctx.push_str(" [");
        ctx.push_str(url);
        ctx.push_str("]");
    }
}

/// Renders `elements` one after another.
pub fn render_elements(ctx: &mut TextContext, elements: &[Element])
    requires
        old(ctx).state().wf(),
    ensures
        final(ctx).state().wf(),
        final(ctx).same_setting(old(ctx)),
        final(ctx).state() == render_seq(
            old(ctx).spec_handle(),
            old(ctx).spec_info().site@,
            old(ctx).spec_info().language@,
            element_views(elements@),
            0,
            old(ctx).state(),
        ),
    decreases elements@,
{
    let ghost host = ctx.spec_handle();
    let ghost site = ctx.spec_info().site@;
    let ghost language = ctx.spec_info().language@;
    let ghost views = element_views(elements@);
    let mut i: usize = 0;
    while i < elements.len()
        invariant
            i <= elements.len(),
            ctx.state().wf(),
            ctx.same_setting(old(ctx)),
            host == ctx.spec_handle(),
            site == ctx.spec_info().site@,
            language == ctx.spec_info().language@,
            views == element_views(elements@),
            render_seq(host, site, language, views, i as int, ctx.state()) == render_seq(
                host,
                site,
                language,
                views,
                0,
                old(ctx).state(),
            ),
        decreases elements.len() - i,
    {
        render_element(ctx, &elements[i]);
        i += 1;
    }
}

/// Renders one element.
#[verifier::rlimit(40)]
pub fn render_element(ctx: &mut TextContext, element: &Element)
    requires
        old(ctx).state().wf(),
    ensures
        final(ctx).state().wf(),
        final(ctx).same_setting(old(ctx)),
        final(ctx).state() == render_one(
            old(ctx).spec_handle(),
            old(ctx).spec_info().site@,
            old(ctx).spec_info().language@,
            element@,
            old(ctx).state(),
        ),
    decreases element,
{
    let ghost host = ctx.spec_handle();
    let ghost site = ctx.spec_info().site@;
    let ghost language = ctx.spec_info().language@;
    match element {
        Element::Container { ctype, elements, attributes } => {
            match ctype {
                ContainerType::Hidden => {},
                ContainerType::Invisible => {
                    let before = ctx.invisible();
                    ctx.set_invisible(true);
                    render_elements(ctx, elements.as_slice());
                    ctx.set_invisible(before);
                },
                ContainerType::Div | ContainerType::Paragraph => {
                    ctx.add_newline();
                    render_elements(ctx, elements.as_slice());
                    ctx.add_newline();
                },
                ContainerType::Blockquote => {
                    ctx.push_prefix("    ");
                    ctx.add_newline();
                    render_elements(ctx, elements.as_slice());
                    ctx.pop_prefix();
                    ctx.add_newline();
                },
                ContainerType::Header(level) => {
                    ctx.push_prefix(level_prefix(*level));
                    ctx.add_newline();
                    render_elements(ctx, elements.as_slice());
                    ctx.pop_prefix();
                    ctx.add_newline();
                },
                _ => {
                    render_elements(ctx, elements.as_slice());
                },
            }
        },
        Element::Module { name, arguments, body } => {
            let handle = ctx.handle();
            handle.render_module(ctx.buffer(), name.as_str(), arguments, body, ModuleRenderMode::Text);
        },
        Element::Text(text) | Element::Raw(text) | Element::Email(text) => {
            ctx.push_str(text.as_str());
        },
        Element::Anchor { elements, attributes, new_tab } => {
            render_elements(ctx, elements.as_slice());
            match attributes.get("href") {
                Some(href) => {
                    let url = get_full_url(ctx, href.as_str());
                    write_url(ctx, url.as_str(), href.as_str());
                },
                None => {},
            }
        },
        Element::Link { target, label, new_tab, interwiki } => {
            let url = match target {
                LinkLocation::Url(url) => String::from_str(url.as_str()),
                LinkLocation::Page { site: None, page } => {
                    let mut url = String::from_str("/");
                    url.append(page.as_str());
                    url
                },
                LinkLocation::Page { site: Some(site), page } => {
                    let mut url = ctx.handle().get_url(site.as_str());
                    url.append("/");
                    url.append(page.as_str());
                    url
                },
            };
            let shown = match label {
                LinkLabel::Text(text) => String::from_str(text.as_str()),
                LinkLabel::Url(Some(text)) => String::from_str(text.as_str()),
                LinkLabel::Url(None) => String::from_str(url.as_str()),
                LinkLabel::Page => ctx.handle().get_page_title(url.as_str()),
            };
            ctx.push_str(shown.as_str());
            let full = get_full_url(ctx, url.as_str());
            write_url(ctx, full.as_str(), shown.as_str());
        },
        Element::List { ltype, items } => {
            ctx.add_newline();
            let ghost views = list_item_views(items@);
            let ghost start = ctx.state();
            let mut i: usize = 0;
            while i < items.len()
                invariant
                    i <= items.len(),
                    ctx.state().wf(),
                    ctx.same_setting(old(ctx)),
                    host == ctx.spec_handle(),
                    site == ctx.spec_info().site@,
                    language == ctx.spec_info().language@,
                    views == list_item_views(items@),
                    element matches Element::List { ltype: l, items: its } && l == ltype && its
                        == items,
                    render_items(host, site, language, *ltype, views, i as int, ctx.state())
                        == render_items(host, site, language, *ltype, views, 0, start),
                decreases items.len() - i,
            {
                match &items[i] {
                    ListItem::Elements(elements) => {
                        let depth = ctx.list_depth();
                        ctx.indent(depth);
                        match *ltype {
                            ListType::Bullet => ctx.push_str("* "),
                            ListType::Numbered => {
                                let index = ctx.next_list_index();
                                let number = decimal(index);
                                ctx.push_str(number.as_str());
                                ctx.push_str(". ");
                            },
                            ListType::Generic => (),
                        }
                        render_elements(ctx, elements.as_slice());
                        ctx.add_newline();
                    },
                    ListItem::SubList(list) => {
                        ctx.incr_list_depth();
                        let inner: &Element = &**list;
                        render_element(ctx, inner);
                        ctx.decr_list_depth();
                    },
                }
                i += 1;
            }
        },
        Element::DefinitionList(items) => {
            ctx.add_newline();
            let ghost views = definition_item_views(items@);
            let ghost start = ctx.state();
            let mut i: usize = 0;
            while i < items.len()
                invariant
                    i <= items.len(),
                    ctx.state().wf(),
                    ctx.same_setting(old(ctx)),
                    host == ctx.spec_handle(),
                    site == ctx.spec_info().site@,
                    language == ctx.spec_info().language@,
                    views == definition_item_views(items@),
                    element matches Element::DefinitionList(its) && its == items,
                    render_rows(host, site, language, views, i as int, ctx.state()) == render_rows(
                        host,
                        site,
                        language,
                        views,
                        0,
                        start,
                    ),
                decreases items.len() - i,
            {
                ctx.push_str(": ");
                render_elements(ctx, items[i].key.as_slice());
                ctx.push_str(" : ");
                render_elements(ctx, items[i].value.as_slice());
                ctx.add_newline();
                i += 1;
            }
        },
        Element::RadioButton { name, checked, attributes } => {
            if *checked {
                ctx.push_str("(*) ");
            } else {
                ctx.push_str("( ) ");
            }
        },
        Element::CheckBox { checked, attributes } => {
            if *checked {
                ctx.push_str("[X] ");
            } else {
                ctx.push_str("[ ] ");
            }
        },
        Element::Collapsible { elements, show_text, hide_text, show_top, show_bottom } => {
            let show = match show_text {
                Some(text) => String::from_str(text.as_str()),
                None => ctx.handle().get_message(ctx.info().language.as_str(), "collapsible-open"),
            };
            let hide = match hide_text {
                Some(text) => String::from_str(text.as_str()),
                None => ctx.handle().get_message(ctx.info().language.as_str(), "collapsible-hide"),
            };

            ctx.add_newline();
            ctx.push_str(show.as_str());
            ctx.add_newline();
            if *show_top {
                ctx.push_str(hide.as_str());
                ctx.add_newline();
            }
            render_elements(ctx, elements.as_slice());

            if *show_bottom {
                ctx.add_newline();
                ctx.push_str(hide.as_str());
                ctx.add_newline();
            }
        },
        Element::Color { color, elements } => render_elements(ctx, elements.as_slice()),
        Element::Code { contents, language: code_language } => {
            ctx.push_str("```");
            match code_language {
                Some(name) => ctx.push_str(name.as_str()),
                None => ctx.push_str(""),
            }
            ctx.push_str("\n");
            ctx.push_str(contents.as_str());
            ctx.push_str("\n```");
        },
        Element::Html { contents } => {
            ctx.push_str("```html\n");
            ctx.push_str(contents.as_str());
            ctx.push_str("\n```");
        },
        Element::Iframe { url, attributes } => {
            ctx.push_str("[iframe: ");
            ctx.push_str(url.as_str());
            ctx.push_str("]");
        },
        Element::LineBreak => ctx.add_newline(),
        Element::LineBreaks(amount) => ctx.add_newlines(*amount),
        Element::HorizontalRule => {
            ctx.add_newline();
            ctx.push_str("------");
            ctx.add_newline();
        },
        Element::Partial(_) => {},
    }
}

} // verus!
