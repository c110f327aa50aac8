use ftml::data::PageInfo;
use ftml::render::json::JsonRender;
use ftml::settings::{WikitextMode, WikitextSettings};
use ftml::tree::{
    AttributeMap, ContainerType, DefinitionListItem, Element, LinkLabel, LinkLocation, ListItem,
    ListType, PartialElement, SyntaxTree,
};

fn text(s: &str) -> Element {
    Element::Text(String::from(s))
}

#[test]
fn json() {
    // Expected outputs
    const PRETTY_OUTPUT: &str = r#"{
  "settings": {
    "mode": "page",
    "enable-page-syntax": true,
    "use-true-ids": true,
    "allow-local-paths": true
  },
  "page-info": {
    "page": "some-page",
    "category": null,
    "site": "sandbox",
    "title": "A page for the age",
    "alt-title": null,
    "rating": 69.0,
    "tags": [
      "tale",
      "_cc"
    ],
    "language": "default"
  },
  "syntax-tree": {
    "elements": [
      {
        "element": "text",
        "data": "apple"
      },
      {
        "element": "text",
        "data": " "
      },
      {
        "element": "container",
        "data": {
          "type": "bold",
          "attributes": {},
          "elements": [
            {
              "element": "text",
              "data": "banana"
            }
          ]
        }
      }
    ],
    "styles": [
      "span.hidden-text { display: none; }"
    ],
    "table-of-contents": [],
    "footnotes": []
  }
}"#;

    const COMPACT_OUTPUT: &str = r#"{"settings":{"mode":"page","enable-page-syntax":true,"use-true-ids":true,"allow-local-paths":true},"page-info":{"page":"some-page","category":null,"site":"sandbox","title":"A page for the age","alt-title":null,"rating":69.0,"tags":["tale","_cc"],"language":"default"},"syntax-tree":{"elements":[{"element":"text","data":"apple"},{"element":"text","data":" "},{"element":"container","data":{"type":"bold","attributes":{},"elements":[{"element":"text","data":"banana"}]}}],"styles":["span.hidden-text { display: none; }"],"table-of-contents":[],"footnotes":[]}}"#;

    let page_info = PageInfo::dummy();
    let settings = WikitextSettings::from_mode(WikitextMode::Page);

    // Syntax tree construction
    let elements = vec![
        text("apple"),
        text(" "),
        Element::Container {
            ctype: ContainerType::Bold,
            elements: vec![text("banana")],
            attributes: AttributeMap::new(),
        },
    ];
    let warnings = vec![];
    let styles = vec![String::from("span.hidden-text { display: none; }")];
    let table_of_contents = vec![];
    let footnotes = vec![];

    let result = SyntaxTree::from_element_result(
        elements,
        warnings,
        styles,
        table_of_contents,
        footnotes,
    );
    let (tree, _) = result;

    // Perform renderings
    let output = JsonRender::pretty().render(&tree, &page_info, &settings);
    assert_eq!(
        output, PRETTY_OUTPUT,
        "Pretty JSON syntax tree output doesn't match",
    );

    let output = JsonRender::compact().render(&tree, &page_info, &settings);
    assert_eq!(
        output, COMPACT_OUTPUT,
        "Compact JSON syntax tree output doesn't match",
    );
}

fn sample_tree() -> SyntaxTree {
    let mut attributes = AttributeMap::new();
    attributes.insert("Zeta", String::from("z"));
    attributes.insert("alpha", String::from("a \"quoted\""));
    attributes.insert("ZETA", String::from("last"));
    SyntaxTree {
        elements: vec![
            Element::Container {
                ctype: ContainerType::Header(3),
                elements: vec![text("T"), Element::LineBreak, Element::LineBreaks(2)],
                attributes,
            },
            Element::Link {
                target: LinkLocation::Url(String::from("/x")),
                label: LinkLabel::Url(None),
                new_tab: true,
                interwiki: false,
            },
            Element::Link {
                target: LinkLocation::Page { site: None, page: String::from("p") },
                label: LinkLabel::Page,
                new_tab: false,
                interwiki: true,
            },
            Element::List {
                ltype: ListType::Numbered,
                items: vec![
                    ListItem::Elements(vec![text("one")]),
                    ListItem::SubList(Box::new(Element::List {
                        ltype: ListType::Bullet,
                        items: vec![],
                    })),
                ],
            },
            Element::DefinitionList(vec![DefinitionListItem {
                key: vec![text("k")],
                value: vec![Element::HorizontalRule],
            }]),
            Element::Code { contents: String::from("x"), language: None },
            Element::Partial(PartialElement::RubyText {
                attributes: AttributeMap::new(),
                elements: vec![],
            }),
        ],
        styles: vec![],
        table_of_contents: vec![text("toc")],
        footnotes: vec![vec![text("note")], vec![]],
    }
}

#[test]
fn json_of_every_kind_of_element() {
    let tree = sample_tree();
    let output = JsonRender::compact()
        .render(&tree, &PageInfo::dummy(), &WikitextSettings::from_mode(WikitextMode::Draft));
    let expected = concat_all(&[
        r#"{"settings":{"mode":"draft","enable-page-syntax":true,"use-true-ids":false,"allow-local-paths":true},"#,
        r#""page-info":{"page":"some-page","category":null,"site":"sandbox","title":"A page for the age","alt-title":null,"rating":69.0,"tags":["tale","_cc"],"language":"default"},"#,
        r#""syntax-tree":{"elements":["#,
        r#"{"element":"container","data":{"type":{"header":3},"attributes":{"alpha":"a \"quoted\"","zeta":"last"},"elements":[{"element":"text","data":"T"},{"element":"line-break"},{"element":"line-breaks","data":2}]}},"#,
        r#"{"element":"link","data":{"target":{"url":"/x"},"label":{"url":null},"new-tab":true,"interwiki":false}},"#,
        r#"{"element":"link","data":{"target":{"page":{"site":null,"page":"p"}},"label":"page","new-tab":false,"interwiki":true}},"#,
        r#"{"element":"list","data":{"type":"numbered","items":[{"item-type":"elements","elements":[{"element":"text","data":"one"}]},{"item-type":"sub-list","element":{"element":"list","data":{"type":"bullet","items":[]}}}]}},"#,
        r#"{"element":"definition-list","data":[{"key":[{"element":"text","data":"k"}],"value":[{"element":"horizontal-rule"}]}]},"#,
        r#"{"element":"code","data":{"contents":"x","language":null}},"#,
        r#"{"element":"partial","data":{"partial":"ruby-text","attributes":{},"elements":[]}}"#,
        r#"],"styles":[],"table-of-contents":[{"element":"text","data":"toc"}],"footnotes":[[{"element":"text","data":"note"}],[]]}}"#,
    ]);
    assert_eq!(output, expected);
}

fn concat_all(parts: &[&str]) -> String {
    parts.iter().map(|part| String::from(*part)).collect()
}

#[test]
fn json_round_trip() {
    let tree = sample_tree();
    let info = PageInfo::dummy();
    let settings = WikitextSettings::from_mode(WikitextMode::Page);
    let pretty = JsonRender::pretty().render(&tree, &info, &settings);
    let compact = JsonRender::compact().render(&tree, &info, &settings);
    let from_pretty: serde_json::Value = serde_json::from_str(&pretty).expect("parse pretty");
    let from_compact: serde_json::Value = serde_json::from_str(&compact).expect("parse compact");
    assert_eq!(from_pretty, from_compact);
    assert_eq!(serde_json::to_string(&from_pretty).expect("rewrite"), compact);
}

#[test]
fn json_of_owned_tree_is_identical() {
    let tree = sample_tree();
    let owned = tree.to_owned();
    assert_eq!(owned, tree);
    let info = PageInfo::dummy();
    let settings = WikitextSettings::from_mode(WikitextMode::Page);
    for renderer in [JsonRender::pretty(), JsonRender::compact()] {
        assert_eq!(
            renderer.render(&owned, &info, &settings),
            renderer.render(&tree, &info, &settings),
        );
    }
}

fn element_read_back(value: &serde_json::Value) -> Element {
    let kind = value["element"].as_str().expect("the kind of the element");
    let data = &value["data"];
    match kind {
        "text" => text(data.as_str().expect("the text")),
        "container" => {
            assert_eq!(data["type"].as_str(), Some("bold"));
            assert_eq!(data["attributes"].as_object().map(|members| members.len()), Some(0));
            Element::Container {
                ctype: ContainerType::Bold,
                elements: elements_read_back(&data["elements"]),
                attributes: AttributeMap::new(),
            }
        }
        other => panic!("an element of kind {}", other),
    }
}

fn elements_read_back(value: &serde_json::Value) -> Vec<Element> {
    value.as_array().expect("the elements").iter().map(element_read_back).collect()
}

fn texts_read_back(value: &serde_json::Value) -> Vec<String> {
    value
        .as_array()
        .expect("the texts")
        .iter()
        .map(|text| String::from(text.as_str().expect("a text")))
        .collect()
}

#[test]
fn json_reads_back_as_the_same_tree() {
    let (tree, _) = SyntaxTree::from_element_result(
        vec![
            text("apple"),
            text(" "),
            Element::Container {
                ctype: ContainerType::Bold,
                elements: vec![text("banana")],
                attributes: AttributeMap::new(),
            },
        ],
        vec![],
        vec![String::from("span.hidden-text { display: none; }")],
        vec![],
        vec![],
    );
    let info = PageInfo::dummy();
    let settings = WikitextSettings::from_mode(WikitextMode::Page);
    let pretty = JsonRender::pretty().render(&tree, &info, &settings);
    let compacted: serde_json::Value = serde_json::from_str(&pretty).expect("parse pretty");
    let compact = serde_json::to_string(&compacted).expect("rewrite");
    assert_eq!(compact, JsonRender::compact().render(&tree, &info, &settings));
    let read: serde_json::Value = serde_json::from_str(&compact).expect("parse compact");
    let read_tree = &read["syntax-tree"];
    assert_eq!(elements_read_back(&read_tree["elements"]), tree.elements);
    assert_eq!(texts_read_back(&read_tree["styles"]), tree.styles);
    assert_eq!(elements_read_back(&read_tree["table-of-contents"]), tree.table_of_contents);
    assert_eq!(
        read_tree["footnotes"].as_array().map(|footnotes| footnotes.len()),
        Some(tree.footnotes.len())
    );
    assert_eq!(read["page-info"]["rating"].as_f64(), Some(69.0));
    assert_eq!(read["settings"]["mode"].as_str(), Some("page"));
}
