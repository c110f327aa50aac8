use ftml::data::PageInfo;
use ftml::parsing::parse_wikitext;
use ftml::render::text::TextRender;
use ftml::settings::{WikitextMode, WikitextSettings};
use ftml::tree::{
    AttributeMap, ContainerType, DefinitionListItem, Element, LinkLabel, LinkLocation, ListItem,
    ListType, PartialElement,
};

fn text(s: &str) -> Element {
    Element::Text(String::from(s))
}

fn container(ctype: ContainerType, elements: Vec<Element>) -> Element {
    Element::Container { ctype, elements, attributes: AttributeMap::new() }
}

fn render(elements: &[Element]) -> String {
    TextRender.render_partial(
        elements,
        &PageInfo::dummy(),
        &WikitextSettings::from_mode(WikitextMode::Page),
    )
}

#[test]
fn text_of_plain_elements() {
    assert_eq!(render(&[]), "");
    assert_eq!(render(&[text("apple"), Element::Raw(String::from(" <b> ")), Element::Email(String::from("a@b.c"))]), "apple <b> a@b.c");
    assert_eq!(render(&[text("a"), Element::LineBreak, text("b"), Element::LineBreaks(3), text("c")]), "a\nb\n\n\nc");
    assert_eq!(render(&[text("a"), Element::HorizontalRule, text("b")]), "a\n------\nb");
}

#[test]
fn text_strips_outer_newlines_only() {
    assert_eq!(
        render(&[container(ContainerType::Paragraph, vec![text("first")]), container(ContainerType::Paragraph, vec![text("second")])]),
        "first\n\nsecond"
    );
}

#[test]
fn text_of_containers() {
    assert_eq!(render(&[container(ContainerType::Bold, vec![text("b")])]), "b");
    assert_eq!(render(&[text("x"), container(ContainerType::Hidden, vec![text("secret")]), text("y")]), "xy");
    assert_eq!(
        render(&[text("x"), container(ContainerType::Invisible, vec![text("abc"), Element::LineBreak, text("d")]), text("y")]),
        "x   \n y"
    );
    assert_eq!(
        render(&[text("a"), container(ContainerType::Blockquote, vec![text("q1"), Element::LineBreak, text("q2")]), text("b")]),
        "a\n    q1\n    q2\nb"
    );
    assert_eq!(
        render(&[text("a"), container(ContainerType::Header(2), vec![text("Title")]), text("b")]),
        "a\n++ Title\nb"
    );
    assert_eq!(
        render(&[text("a"), container(ContainerType::Div, vec![text("d")]), text("b")]),
        "a\nd\nb"
    );
}

#[test]
fn text_of_links() {
    let link = |url: &str, label: LinkLabel| Element::Link {
        target: LinkLocation::Url(String::from(url)),
        label,
        new_tab: false,
        interwiki: false,
    };
    assert_eq!(
        render(&[link("https://example.com/", LinkLabel::Text(String::from("Label")))]),
        "Label [https://example.com/]"
    );
    assert_eq!(render(&[link("https://example.com/", LinkLabel::Url(None))]), "https://example.com/");
    assert_eq!(
        render(&[link("/page", LinkLabel::Url(Some(String::from("pa"))))]),
        "pa [https://sandbox.wikijump.com/page]"
    );
    assert_eq!(render(&[link("page", LinkLabel::Page)]), "page [https://sandbox.wikijump.com/page]");
    assert_eq!(render(&[link("#anchor", LinkLabel::Text(String::from("t")))]), "t [#anchor]");
    assert_eq!(render(&[link("javascript:;", LinkLabel::Text(String::from("t")))]), "t [#]");
    assert_eq!(
        render(&[Element::Link {
            target: LinkLocation::Page { site: None, page: String::from("home") },
            label: LinkLabel::Text(String::from("Home")),
            new_tab: false,
            interwiki: false,
        }]),
        "Home [https://sandbox.wikijump.com/home]"
    );
    assert_eq!(
        render(&[Element::Link {
            target: LinkLocation::Page {
                site: Some(String::from("other")),
                page: String::from("home"),
            },
            label: LinkLabel::Url(None),
            new_tab: false,
            interwiki: false,
        }]),
        "https://other.wikijump.com/home"
    );
}

#[test]
fn text_of_anchor() {
    let mut attributes = AttributeMap::new();
    attributes.insert("HREF", String::from("/target"));
    assert_eq!(
        render(&[Element::Anchor { elements: vec![text("go")], attributes, new_tab: false }]),
        "go [https://sandbox.wikijump.com/target]"
    );
    let mut same = AttributeMap::new();
    same.insert("href", String::from("https://example.com"));
    assert_eq!(
        render(&[Element::Anchor { elements: vec![text("go")], attributes: same, new_tab: false }]),
        "go"
    );
    assert_eq!(
        render(&[Element::Anchor { elements: vec![text("go")], attributes: AttributeMap::new(), new_tab: true }]),
        "go"
    );
}

#[test]
fn text_of_lists() {
    let list = Element::List {
        ltype: ListType::Numbered,
        items: vec![
            ListItem::Elements(vec![text("one")]),
            ListItem::SubList(Box::new(Element::List {
                ltype: ListType::Bullet,
                items: vec![ListItem::Elements(vec![text("deep")])],
            })),
            ListItem::Elements(vec![text("two")]),
            ListItem::SubList(Box::new(Element::List {
                ltype: ListType::Numbered,
                items: vec![ListItem::Elements(vec![text("n")])],
            })),
        ],
    };
    assert_eq!(render(&[text("x"), list]), "x\n 1. one\n\n  * deep\n 2. two\n\n  1. n");
    let generic = Element::List {
        ltype: ListType::Generic,
        items: vec![ListItem::Elements(vec![text("g")])],
    };
    assert_eq!(render(&[generic]), " g");
}

#[test]
fn text_numbers_items_with_many_digits() {
    let items: Vec<ListItem> = (0..12).map(|i| ListItem::Elements(vec![text(if i == 11 { "last" } else { "x" })])).collect();
    let output = render(&[Element::List { ltype: ListType::Numbered, items }]);
    assert!(output.ends_with("\n 10. x\n 11. x\n 12. last"));
    assert!(output.starts_with(" 1. x\n 2. x\n"));
}

#[test]
fn text_of_definition_list() {
    assert_eq!(
        render(&[Element::DefinitionList(vec![
            DefinitionListItem { key: vec![text("fruit")], value: vec![text("apple")] },
            DefinitionListItem { key: vec![text("color")], value: vec![text("red")] },
        ])]),
        ": fruit : apple\n: color : red"
    );
}

#[test]
fn text_of_inputs_and_blocks() {
    assert_eq!(
        render(&[
            Element::RadioButton { name: String::from("r"), checked: true, attributes: AttributeMap::new() },
            Element::RadioButton { name: String::from("r"), checked: false, attributes: AttributeMap::new() },
            Element::CheckBox { checked: true, attributes: AttributeMap::new() },
            Element::CheckBox { checked: false, attributes: AttributeMap::new() },
            text("."),
        ]),
        "(*) ( ) [X] [ ] ."
    );
    assert_eq!(
        render(&[Element::Code { contents: String::from("let x;"), language: Some(String::from("rust")) }]),
        "```rust\nlet x;\n```"
    );
    assert_eq!(
        render(&[Element::Code { contents: String::from("x"), language: None }]),
        "```\nx\n```"
    );
    assert_eq!(render(&[Element::Html { contents: String::from("<b>") }]), "```html\n<b>\n```");
    assert_eq!(
        render(&[Element::Iframe { url: String::from("https://example.com"), attributes: AttributeMap::new() }]),
        "[iframe: https://example.com]"
    );
    assert_eq!(
        render(&[Element::Color { color: String::from("red"), elements: vec![text("c")] }]),
        "c"
    );
    assert_eq!(
        render(&[Element::Module { name: String::from("Rate"), arguments: AttributeMap::new(), body: None }]),
        "[module Rate]"
    );
    assert_eq!(
        render(&[text("a"), Element::Partial(PartialElement::RubyText { attributes: AttributeMap::new(), elements: vec![text("x")] }), text("b")]),
        "ab"
    );
}

#[test]
fn text_of_collapsible() {
    let collapsible = |show_text: Option<&str>, show_top: bool, show_bottom: bool| Element::Collapsible {
        elements: vec![text("body")],
        show_text: show_text.map(String::from),
        hide_text: None,
        show_top,
        show_bottom,
    };
    assert_eq!(render(&[collapsible(None, false, false)]), "+ open block\nbody");
    assert_eq!(render(&[collapsible(Some("open"), true, false)]), "open\n- hide block\nbody");
    assert_eq!(render(&[collapsible(None, true, true)]), "+ open block\n- hide block\nbody\n- hide block");
}

#[test]
fn text_of_parsed_page() {
    let settings = WikitextSettings::from_mode(WikitextMode::Page);
    let (tree, _) = parse_wikitext("+ Title\nSome **bold** text.\n* one\n* two\n", &settings);
    assert_eq!(
        TextRender.render(&tree, &PageInfo::dummy(), &settings),
        "+ Title\n\nSome bold text.\n\n * one\n * two"
    );
}
