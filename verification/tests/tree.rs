use ftml::bindings::settings::WikitextSettings as SettingsHandle;
use ftml::error::RenderError;
use ftml::settings::{WikitextMode, WikitextSettings};
use ftml::tree::clone::{
    elements_to_owned, list_items_to_owned, option_string_to_owned, string_to_owned,
    strings_to_owned,
};
use ftml::tree::{AttributeMap, ContainerType, Element, LinkLabel, LinkLocation, ListItem, ListType};

#[test]
fn owned_strings() {
    assert_eq!(string_to_owned(&String::from("apple")), "apple");
    assert_eq!(option_string_to_owned(&Some(String::from("a"))), Some(String::from("a")));
    assert_eq!(option_string_to_owned(&None), None);
    assert_eq!(
        strings_to_owned(&[String::from("a"), String::from(""), String::from("c")]),
        vec![String::from("a"), String::from(""), String::from("c")]
    );
}

#[test]
fn owned_labels_and_locations() {
    for label in [
        LinkLabel::Text(String::from("t")),
        LinkLabel::Url(None),
        LinkLabel::Url(Some(String::from("u"))),
        LinkLabel::Page,
    ] {
        assert_eq!(label.to_owned(), label);
    }
    for location in [
        LinkLocation::Url(String::from("/x")),
        LinkLocation::Page { site: None, page: String::from("p") },
        LinkLocation::Page { site: Some(String::from("s")), page: String::from("p") },
    ] {
        assert_eq!(location.to_owned(), location);
    }
}

#[test]
fn owned_elements() {
    let mut attributes = AttributeMap::new();
    attributes.insert("class", String::from("c"));
    let elements = vec![
        Element::Text(String::from("apple")),
        Element::Container {
            ctype: ContainerType::Header(2),
            elements: vec![Element::LineBreak, Element::Raw(String::from("r"))],
            attributes,
        },
        Element::List {
            ltype: ListType::Bullet,
            items: vec![ListItem::SubList(Box::new(Element::List {
                ltype: ListType::Numbered,
                items: vec![ListItem::Elements(vec![Element::HorizontalRule])],
            }))],
        },
    ];
    assert_eq!(elements_to_owned(&elements), elements);
    assert_eq!(elements[1].to_owned(), elements[1]);
    let items = vec![
        ListItem::Elements(vec![Element::Text(String::from("i"))]),
        ListItem::SubList(Box::new(Element::List { ltype: ListType::Generic, items: vec![] })),
    ];
    assert_eq!(list_items_to_owned(&items), items);
}

#[test]
fn attribute_map_folds_and_orders_names() {
    let mut map = AttributeMap::new();
    assert!(map.is_empty());
    map.insert("Zeta", String::from("1"));
    map.insert("alpha", String::from("2"));
    map.insert("ZETA", String::from("3"));
    map.insert("alp", String::from("4"));
    map.insert("\u{c9}", String::from("5"));
    assert_eq!(map.len(), 4);
    let entries: Vec<(String, String)> =
        (0..map.len()).map(|i| (map.key_at(i).clone(), map.value_at(i).clone())).collect();
    assert_eq!(
        entries,
        vec![
            (String::from("alp"), String::from("4")),
            (String::from("alpha"), String::from("2")),
            (String::from("zeta"), String::from("3")),
            (String::from("\u{c9}"), String::from("5")),
        ]
    );
    assert_eq!(map.get("zeta"), Some(&String::from("3")));
    assert_eq!(map.get("Zeta"), None);
    assert_eq!(map.get("al"), None);
    assert_eq!(map.to_owned(), map);
    assert_eq!(map.clone(), map);
    let mut other = AttributeMap::new();
    other.insert("\u{c9}", String::from("5"));
    other.insert("alp", String::from("4"));
    other.insert("zeta", String::from("3"));
    other.insert("alpha", String::from("2"));
    assert_eq!(other, map);
}

#[test]
fn settings_from_mode() {
    let page = WikitextSettings::from_mode(WikitextMode::Page);
    assert!(page.enable_page_syntax && page.use_true_ids && page.allow_local_paths);
    let draft = WikitextSettings::from_mode(WikitextMode::Draft);
    assert!(draft.enable_page_syntax && !draft.use_true_ids && draft.allow_local_paths);
    let list = WikitextSettings::from_mode(WikitextMode::List);
    assert!(list.enable_page_syntax && !list.use_true_ids && list.allow_local_paths);
    for mode in [WikitextMode::ForumPost, WikitextMode::DirectMessage] {
        let settings = WikitextSettings::from_mode(mode);
        assert_eq!(settings.mode, mode);
        assert!(!settings.enable_page_syntax && !settings.use_true_ids && !settings.allow_local_paths);
        assert!(settings.interwiki.is_empty());
    }
    assert_eq!(page.interwiki_build("wp:Apple"), None);
}

#[test]
fn settings_handle_from_mode_name() {
    for (name, mode) in [
        ("page", WikitextMode::Page),
        ("draft", WikitextMode::Draft),
        ("forum-post", WikitextMode::ForumPost),
        ("direct-message", WikitextMode::DirectMessage),
        ("list", WikitextMode::List),
    ] {
        let handle = SettingsHandle::from_mode(String::from(name)).expect("known mode");
        assert_eq!(*handle.get(), WikitextSettings::from_mode(mode));
        assert_eq!(WikitextMode::from_name(name), Some(mode));
        assert_eq!(mode.name(), name);
        let copy = handle.copy();
        assert_eq!(copy.get(), handle.get());
    }
    match SettingsHandle::from_mode(String::from("Page")) {
        Err(error) => assert_eq!(error, RenderError::StaticMsg("Unknown mode")),
        Ok(_) => panic!("mode names are case sensitive"),
    }
    let custom = WikitextSettings {
        mode: WikitextMode::List,
        enable_page_syntax: false,
        use_true_ids: true,
        allow_local_paths: false,
        interwiki: vec![],
    };
    let handle = SettingsHandle::new(custom.clone()).expect("any settings");
    assert_eq!(*handle.get(), custom);
}
