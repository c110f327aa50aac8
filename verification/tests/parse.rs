use ftml::parsing::collect::collect_text;
use ftml::parsing::consume::{apply_rule, consume, styled};
use ftml::parsing::parser::{ParseCondition, Parser};
use ftml::parsing::result::{Elements, ParseWarning, ParseWarningKind, Rule};
use ftml::parsing::rule::em_dash;
use ftml::parsing::rule::header::header;
use ftml::parsing::rule::link_single::{check_step, link, link_new_tab};
use ftml::parsing::rule::list::try_consume_fn;
use ftml::parsing::token::Span;
use ftml::parsing::Token;
use ftml::parsing::{parse, parse_wikitext, tokenize};
use ftml::settings::{InterwikiEntry, WikitextMode, WikitextSettings};
use ftml::tree::{
    AttributeMap, ContainerType, DefinitionListItem, Element, LinkLabel, LinkLocation, ListItem,
    ListType,
};

fn page_settings() -> WikitextSettings {
    WikitextSettings::from_mode(WikitextMode::Page)
}

fn elements_of(text: &str) -> Vec<Element> {
    parse_wikitext(text, &page_settings()).0.elements
}

fn text(s: &str) -> Element {
    Element::Text(String::from(s))
}

fn container(ctype: ContainerType, elements: Vec<Element>) -> Element {
    Element::Container { ctype, elements, attributes: AttributeMap::new() }
}

fn paragraph(elements: Vec<Element>) -> Element {
    container(ContainerType::Paragraph, elements)
}

fn has_partial(element: &Element) -> bool {
    match element {
        Element::Partial(_) => true,
        Element::Container { elements, .. }
        | Element::Anchor { elements, .. }
        | Element::Collapsible { elements, .. }
        | Element::Color { elements, .. } => elements.iter().any(has_partial),
        Element::List { items, .. } => items.iter().any(|item| match item {
            ListItem::Elements(elements) => elements.iter().any(has_partial),
            ListItem::SubList(list) => has_partial(list),
        }),
        Element::DefinitionList(items) => items
            .iter()
            .any(|item| item.key.iter().any(has_partial) || item.value.iter().any(has_partial)),
        _ => false,
    }
}

#[test]
fn parse_empty_input() {
    let (tree, warnings) = parse_wikitext("", &page_settings());
    assert_eq!(tree.elements, vec![]);
    assert_eq!(warnings, vec![]);
    assert!(tree.styles.is_empty());
    assert!(tree.table_of_contents.is_empty());
    assert!(tree.footnotes.is_empty());
}

#[test]
fn parse_plain_text_is_one_paragraph() {
    assert_eq!(elements_of("apple banana"), vec![paragraph(vec![text("apple banana")])]);
}

#[test]
fn parse_paragraph_break_splits_paragraphs() {
    assert_eq!(
        elements_of("apple\n\nbanana\ncherry"),
        vec![
            paragraph(vec![text("apple")]),
            paragraph(vec![text("banana"), Element::LineBreak, text("cherry")]),
        ]
    );
}

#[test]
fn parse_em_dash() {
    assert_eq!(elements_of("--"), vec![paragraph(vec![text("\u{2014}")])]);
    assert_eq!(elements_of("a -- b"), vec![paragraph(vec![text("a \u{2014} b")])]);
}

#[test]
fn parse_single_bracket_link() {
    assert_eq!(
        elements_of("[https://example.com/ Label text]"),
        vec![paragraph(vec![Element::Link {
            target: LinkLocation::Url(String::from("https://example.com/")),
            label: LinkLabel::Text(String::from("Label text")),
            new_tab: false,
            interwiki: false,
        }])]
    );
}

#[test]
fn parse_single_bracket_link_new_tab_and_local_path() {
    assert_eq!(
        elements_of("[*/some/page   Spaced label  ]"),
        vec![paragraph(vec![Element::Link {
            target: LinkLocation::Url(String::from("/some/page")),
            label: LinkLabel::Text(String::from("Spaced label")),
            new_tab: true,
            interwiki: false,
        }])]
    );
}

#[test]
fn parse_single_bracket_link_without_url_is_text() {
    let (tree, warnings) = parse_wikitext("[ Label]", &page_settings());
    assert_eq!(tree.elements, vec![paragraph(vec![text("[ Label]")])]);
    let kinds: Vec<ParseWarningKind> = warnings.iter().map(|w| w.kind).collect();
    assert_eq!(kinds, vec![ParseWarningKind::InvalidUrl, ParseWarningKind::NoRulesMatch]);
    assert_eq!((warnings[0].span.start, warnings[0].span.end), (2, 7));
}

#[test]
fn parse_single_bracket_link_with_bad_scheme_is_text() {
    let (tree, warnings) = parse_wikitext("[example.com Label]", &page_settings());
    assert_eq!(tree.elements, vec![paragraph(vec![text("[example.com Label]")])]);
    assert!(warnings.iter().any(|w| w.kind == ParseWarningKind::InvalidUrl));
}

#[test]
fn parse_interwiki_link() {
    let mut settings = page_settings();
    settings.interwiki.push(InterwikiEntry {
        prefix: String::from("wp"),
        url: String::from("https://wikipedia.org/wiki/$$?from=$$"),
    });
    let (tree, _) = parse_wikitext("[wp:Apple the fruit]", &settings);
    assert_eq!(
        tree.elements,
        vec![paragraph(vec![Element::Link {
            target: LinkLocation::Url(String::from("https://wikipedia.org/wiki/Apple?from=Apple")),
            label: LinkLabel::Text(String::from("the fruit")),
            new_tab: false,
            interwiki: true,
        }])]
    );
}

#[test]
fn parse_definition_list() {
    assert_eq!(
        elements_of(": fruit : apple\n: color : red\n"),
        vec![Element::DefinitionList(vec![
            DefinitionListItem { key: vec![text("fruit")], value: vec![text("apple")] },
            DefinitionListItem { key: vec![text("color")], value: vec![text("red")] },
        ])]
    );
}

#[test]
fn parse_definition_list_takes_first_key_end_and_stops_at_plain_line() {
    assert_eq!(
        elements_of("a\n: k : v : w\nrest"),
        vec![
            paragraph(vec![text("a")]),
            Element::DefinitionList(vec![DefinitionListItem {
                key: vec![text("k")],
                value: vec![text("v"), text(" "), text(":"), text(" "), text("w")],
            }]),
            paragraph(vec![text("rest")]),
        ]
    );
}

#[test]
fn parse_definition_list_with_blank_key_is_text() {
    assert_eq!(elements_of(":   : v"), vec![paragraph(vec![text(":   : v")])]);
}

#[test]
fn parse_bullet_list() {
    assert_eq!(
        elements_of("* apple\n* banana"),
        vec![Element::List {
            ltype: ListType::Bullet,
            items: vec![
                ListItem::Elements(vec![text("apple")]),
                ListItem::Elements(vec![text("banana")]),
            ],
        }]
    );
}

#[test]
fn parse_nested_list_keeps_type_of_first_item() {
    assert_eq!(
        elements_of("intro\n# one\n # deep\n  * deeper\n* two\n"),
        vec![
            paragraph(vec![text("intro")]),
            Element::List {
                ltype: ListType::Numbered,
                items: vec![
                    ListItem::Elements(vec![text("one")]),
                    ListItem::SubList(Box::new(Element::List {
                        ltype: ListType::Numbered,
                        items: vec![
                            ListItem::Elements(vec![text("deep")]),
                            ListItem::SubList(Box::new(Element::List {
                                ltype: ListType::Bullet,
                                items: vec![ListItem::Elements(vec![text("deeper")])],
                            })),
                        ],
                    })),
                    ListItem::Elements(vec![text("two")]),
                ],
            },
        ]
    );
}

#[test]
fn parse_list_that_starts_deep() {
    assert_eq!(
        elements_of("  * deep\n* top"),
        vec![Element::List {
            ltype: ListType::Bullet,
            items: vec![
                ListItem::SubList(Box::new(Element::List {
                    ltype: ListType::Bullet,
                    items: vec![ListItem::SubList(Box::new(Element::List {
                        ltype: ListType::Bullet,
                        items: vec![ListItem::Elements(vec![text("deep")])],
                    }))],
                })),
                ListItem::Elements(vec![text("top")]),
            ],
        }]
    );
}

#[test]
fn parse_marker_without_space_is_text() {
    assert_eq!(elements_of("*apple"), vec![paragraph(vec![text("*apple")])]);
}

#[test]
fn parse_styled_containers() {
    assert_eq!(
        elements_of("**bold** //it// __u__ ^^up^^ ,,down,, {{mono}} --gone--"),
        vec![paragraph(vec![
            container(ContainerType::Bold, vec![text("bold")]),
            text(" "),
            container(ContainerType::Italics, vec![text("it")]),
            text(" "),
            container(ContainerType::Underline, vec![text("u")]),
            text(" "),
            container(ContainerType::Superscript, vec![text("up")]),
            text(" "),
            container(ContainerType::Subscript, vec![text("down")]),
            text(" "),
            container(ContainerType::Monospace, vec![text("mono")]),
            text(" "),
            container(ContainerType::Strikethrough, vec![text("gone")]),
        ])]
    );
}

#[test]
fn parse_unclosed_bold_is_text() {
    let (tree, warnings) = parse_wikitext("**bold", &page_settings());
    assert_eq!(tree.elements, vec![paragraph(vec![text("**bold")])]);
    assert_eq!(warnings[0].kind, ParseWarningKind::EndOfInput);
}

#[test]
fn parse_headers() {
    assert_eq!(
        elements_of("+ One\n++++++ Six\n+++++++ Seven"),
        vec![
            container(ContainerType::Header(1), vec![text("One")]),
            container(ContainerType::Header(6), vec![text("Six")]),
            paragraph(vec![text("+++++++ Seven")]),
        ]
    );
}

#[test]
fn parse_block_with_arguments() {
    let mut attributes = AttributeMap::new();
    attributes.insert("class", String::from("fruit salad"));
    attributes.insert("id", String::from("x"));
    assert_eq!(
        elements_of("[[SPAN Class=\"fruit salad\" id=\"x\"]]apple[[/span]]"),
        vec![paragraph(vec![Element::Container {
            ctype: ContainerType::Span,
            elements: vec![text("apple")],
            attributes,
        }])]
    );
}

#[test]
fn parse_block_closed_by_another_of_its_names() {
    assert_eq!(
        elements_of("[[i]]apple[[/ emphasis ]] [[s]]x[[/strikethrough]]"),
        vec![paragraph(vec![
            container(ContainerType::Italics, vec![text("apple")]),
            text(" "),
            container(ContainerType::Strikethrough, vec![text("x")]),
        ])]
    );
}

#[test]
fn parse_ruby_block_finishes_ruby_text() {
    assert_eq!(
        elements_of("[[ruby]]\n\u{6f22}[[rt]]kan[[/rt]][[/ruby]]"),
        vec![paragraph(vec![container(
            ContainerType::Ruby,
            vec![text("\u{6f22}"), container(ContainerType::RubyText, vec![text("kan")])],
        )])]
    );
}

#[test]
fn parse_ruby_text_outside_ruby_is_text() {
    let (tree, warnings) = parse_wikitext("[[rt]]kan[[/rt]]", &page_settings());
    assert_eq!(tree.elements, vec![paragraph(vec![text("[[rt]]kan[[/rt]]")])]);
    assert!(warnings.iter().any(|w| w.kind == ParseWarningKind::BlockNotAccepted));
    assert!(!tree.elements.iter().any(has_partial));
}

#[test]
fn parse_ruby_text_nested_in_bold_inside_ruby_is_text() {
    let (tree, _) = parse_wikitext("[[ruby]]**[[rt]]x[[/rt]]**[[/ruby]]", &page_settings());
    assert!(!tree.elements.iter().any(has_partial));
    assert_eq!(
        tree.elements,
        vec![paragraph(vec![container(
            ContainerType::Ruby,
            vec![container(
                ContainerType::Bold,
                vec![
                    text("[["),
                    text("rt"),
                    text("]]"),
                    text("x"),
                    text("[[/"),
                    text("rt"),
                    text("]]"),
                ],
            )],
        )])]
    );
}

#[test]
fn parse_unknown_and_unclosed_blocks_are_text() {
    let (tree, warnings) = parse_wikitext("[[nothing]] [[b]]open", &page_settings());
    assert_eq!(tree.elements, vec![paragraph(vec![text("[[nothing]] [[b]]open")])]);
    let kinds: Vec<ParseWarningKind> = warnings.iter().map(|w| w.kind).collect();
    assert!(kinds.contains(&ParseWarningKind::NoSuchBlock));
    assert!(kinds.contains(&ParseWarningKind::BlockMissingClose));
}

#[test]
fn parse_block_error_kinds() {
    let kinds = |text: &str| -> Vec<ParseWarningKind> {
        parse_wikitext(text, &page_settings()).1.iter().map(|w| w.kind).collect()
    };
    assert!(kinds("[[ ]]").contains(&ParseWarningKind::BlockExpectedName));
    assert!(kinds("[[*b]]x[[/b]]").contains(&ParseWarningKind::BlockDisallowsStar));
    assert!(kinds("[[b_]]x[[/b]]").contains(&ParseWarningKind::BlockDisallowsScore));
    assert!(kinds("[[b a=b]]x[[/b]]").contains(&ParseWarningKind::BlockMalformedArguments));
    assert!(kinds("a : b").contains(&ParseWarningKind::NotStartOfLine));
    assert!(kinds("[x]").contains(&ParseWarningKind::RuleFailed));
    assert!(kinds("a\nb").is_empty());
    assert!(kinds("*x").is_empty());
}

#[test]
fn parse_is_total_on_odd_inputs() {
    for input in ["[[", "]]", "[[/", "[*", "* ", "#", ": ", ":", "+", "\n", "\n\n\n", "**//__^^,,{{--", "[[ruby]][[rt]]", "\u{0}\u{ffff}"] {
        let (tree, _) = parse_wikitext(input, &page_settings());
        assert!(!tree.elements.iter().any(has_partial));
    }
}

#[test]
fn parse_works_on_tokens_directly() {
    let tokenization = tokenize("a **b**");
    let (tree, warnings) = parse(&tokenization, &page_settings());
    assert_eq!(
        tree.elements,
        vec![paragraph(vec![text("a "), container(ContainerType::Bold, vec![text("b")])])]
    );
    assert!(warnings.is_empty());
    assert_eq!(tokenization.full_text(), "a **b**");
}

#[test]
fn parse_builds_table_of_contents() {
    let (tree, _) = parse_wikitext("+ One **bold** [/x link]\ntext\n++ Two\n", &page_settings());
    let entry = |index: &str, label: &str| Element::Link {
        target: LinkLocation::Url(format!("#toc{}", index)),
        label: LinkLabel::Text(String::from(label)),
        new_tab: false,
        interwiki: false,
    };
    assert_eq!(tree.table_of_contents, vec![entry("0", "One bold link"), entry("1", "Two")]);
    assert!(tree.footnotes.is_empty());
    assert!(tree.styles.is_empty());
}

#[test]
fn parse_numbers_many_headings() {
    let text: String = (0..12).map(|i| format!("+ h{}\n", i)).collect();
    let (tree, _) = parse_wikitext(&text, &page_settings());
    assert_eq!(tree.table_of_contents.len(), 12);
    match &tree.table_of_contents[11] {
        Element::Link { target, label, .. } => {
            assert_eq!(*target, LinkLocation::Url(String::from("#toc11")));
            assert_eq!(*label, LinkLabel::Text(String::from("h11")));
        }
        other => panic!("not a link: {:?}", other),
    }
}

#[test]
fn parse_header_levels_are_in_range() {
    fn check(elements: &[Element]) {
        for element in elements {
            if let Element::Container { ctype, elements, .. } = element {
                if let ContainerType::Header(level) = ctype {
                    assert!((1..=6).contains(level));
                }
                check(elements);
            }
        }
    }
    for input in ["+ a\n++ b\n+++ c\n++++ d\n+++++ e\n++++++ f\n+++++++ g", "**\n+ x\n**", "+\n+ \n"] {
        check(&elements_of(input));
    }
}

#[test]
fn parse_list_type_is_type_of_first_marker() {
    for (input, expected) in [
        ("* a\n# b", ListType::Bullet),
        ("# a\n* b", ListType::Numbered),
        ("  # a\n* b", ListType::Numbered),
    ] {
        match &elements_of(input)[0] {
            Element::List { ltype, .. } => assert_eq!(*ltype, expected),
            other => panic!("not a list: {:?}", other),
        }
    }
}

#[test]
fn list_rule_without_items_fails() {
    let settings = page_settings();
    for text in ["*x", "x", "  x", ""] {
        let tokens = tokenize(text).into_tokens();
        let mut parser = Parser::new(&tokens, &settings);
        parser.set_rule(Rule::List);
        match try_consume_fn(&mut parser) {
            Err(warning) => {
                assert_eq!(warning.kind, ParseWarningKind::RuleFailed);
                assert_eq!(warning.rule, Rule::List);
            }
            Ok(success) => panic!("a list without items: {:?}", success),
        }
    }
    let tokens = tokenize("x\n* a").into_tokens();
    let mut parser = Parser::new(&tokens, &settings);
    parser.set_rule(Rule::List);
    assert_eq!(parser.step(), Ok(()));
    match try_consume_fn(&mut parser) {
        Err(warning) => assert_eq!(warning.kind, ParseWarningKind::RuleFailed),
        Ok(success) => panic!("a list in the middle of a line: {:?}", success),
    }
}

#[test]
fn parser_steps_and_looks_ahead() {
    let settings = page_settings();
    let tokens = tokenize("a b").into_tokens();
    let mut parser = Parser::new(&tokens, &settings);
    assert_eq!(parser.current().token, Token::InputStart);
    assert!(parser.start_of_line());
    assert_eq!(
        parser.next_three_tokens(),
        (Token::InputStart, Some(Token::Identifier), Some(Token::Whitespace))
    );
    assert_eq!(parser.step(), Ok(()));
    assert!(parser.start_of_line());
    assert_eq!(parser.step_n(2), Ok(()));
    assert!(!parser.start_of_line());
    assert_eq!(parser.current().slice, "b");
    assert_eq!(parser.next_two_tokens(), (Token::Identifier, Some(Token::InputEnd)));
    assert_eq!(parser.look_ahead(1).map(|t| t.token), Some(Token::InputEnd));
    assert!(parser.look_ahead(2).is_none());
    let copy = parser;
    let failed = parser.step_n(5).expect_err("past the end");
    assert_eq!(failed.kind, ParseWarningKind::EndOfInput);
    assert_eq!(parser.current().token, Token::InputEnd);
    assert_eq!(parser.step().expect_err("at the end").kind, ParseWarningKind::EndOfInput);
    parser.update(&copy);
    assert_eq!(parser.current().slice, "b");
    assert_eq!(parser.make_warn(ParseWarningKind::RuleFailed).span.start, 2);
}

#[test]
fn list_notes_marker_of_another_kind_at_same_depth() {
    let (tree, warnings) = parse_wikitext("* a\n# b", &page_settings());
    assert_eq!(
        tree.elements,
        vec![Element::List {
            ltype: ListType::Bullet,
            items: vec![
                ListItem::Elements(vec![text("a")]),
                ListItem::Elements(vec![text("b")]),
            ],
        }]
    );
    assert_eq!(
        warnings,
        vec![ParseWarning {
            token: Token::NumberedItem,
            rule: Rule::List,
            span: Span { start: 4, end: 5 },
            kind: ParseWarningKind::ListTypeMismatch,
        }]
    );
}

#[test]
fn list_notes_mismatch_at_each_depth_on_its_own() {
    let settings = page_settings();
    let kinds = |input: &str| -> Vec<(ParseWarningKind, usize)> {
        parse_wikitext(input, &settings)
            .1
            .iter()
            .map(|warning| (warning.kind, warning.span.start))
            .collect()
    };
    assert_eq!(kinds("* a\n* b\n* c"), vec![]);
    assert_eq!(kinds("* a\n # b\n* c"), vec![]);
    assert_eq!(kinds("# a\n * b\n # c"), vec![(ParseWarningKind::ListTypeMismatch, 10)]);
    assert_eq!(kinds("* a\n # b\n* c\n * d"), vec![]);
    assert_eq!(
        kinds("* a\n# b\n# c"),
        vec![(ParseWarningKind::ListTypeMismatch, 4), (ParseWarningKind::ListTypeMismatch, 8)]
    );
}

#[test]
fn em_dash_rule_gives_the_dash_wherever_it_stands() {
    let settings = page_settings();
    let tokens = tokenize("a--").into_tokens();
    for start in 0..tokens.len() {
        let mut parser = Parser::new(&tokens, &settings);
        for _ in 0..start {
            assert_eq!(parser.step(), Ok(()));
        }
        let success = em_dash::try_consume(&mut parser).expect("the rule does not fail");
        assert_eq!(success.item, Elements::Single(text("\u{2014}")));
        assert_eq!(success.exceptions, vec![]);
        let expected = if start + 1 < tokens.len() { start + 1 } else { start };
        assert_eq!(parser.current(), &tokens[expected]);
    }
}

#[test]
fn collecting_names_the_rule_given_and_keeps_the_parsers_own() {
    let settings = page_settings();
    let tokens = tokenize("abc").into_tokens();
    let mut parser = Parser::new(&tokens, &settings);
    parser.set_rule(Rule::Text);
    let failure = collect_text(
        &mut parser,
        Rule::LinkSingle,
        &[ParseCondition::current(Token::RightBracket)],
        &[],
        None,
    );
    match failure {
        Err(warning) => {
            assert_eq!(warning.rule, Rule::LinkSingle);
            assert_eq!(warning.kind, ParseWarningKind::EndOfInput);
        }
        Ok(collected) => panic!("nothing closes the text: {:?}", collected),
    }
    assert_eq!(parser.rule(), Rule::Text);

    let tokens = tokenize("abc]").into_tokens();
    let mut parser = Parser::new(&tokens, &settings);
    parser.set_rule(Rule::Text);
    assert_eq!(parser.step(), Ok(()));
    let collected = collect_text(
        &mut parser,
        Rule::LinkSingle,
        &[ParseCondition::current(Token::RightBracket)],
        &[],
        None,
    );
    assert_eq!(collected, Ok(String::from("abc")));
    assert_eq!(parser.rule(), Rule::Text);
    assert_eq!(parser.current().token, Token::InputEnd);
}

#[test]
fn rules_fail_at_the_end_of_the_input() {
    let settings = page_settings();
    let tokens = tokenize("a").into_tokens();
    let at_end = || {
        let mut parser = Parser::new(&tokens, &settings);
        parser.set_rule(Rule::LinkSingle);
        assert_eq!(parser.step_n(2), Ok(()));
        assert_eq!(parser.current().token, Token::InputEnd);
        parser
    };
    let end = ParseWarning {
        token: Token::InputEnd,
        rule: Rule::LinkSingle,
        span: Span { start: 1, end: 1 },
        kind: ParseWarningKind::RuleFailed,
    };

    let mut parser = at_end();
    assert_eq!(
        consume(&mut parser),
        Err(ParseWarning { rule: Rule::Fallback, kind: ParseWarningKind::EndOfInput, ..end })
    );
    assert_eq!(parser.current().token, Token::InputEnd);
    assert_eq!(parser.rule(), Rule::LinkSingle);

    let mut parser = at_end();
    assert_eq!(
        apply_rule(&mut parser, Rule::Text),
        Err(ParseWarning { rule: Rule::Text, kind: ParseWarningKind::EndOfInput, ..end })
    );
    assert_eq!(parser.rule(), Rule::Text);

    let mut parser = at_end();
    assert_eq!(styled(&mut parser, Rule::Bold), Err(ParseWarning { rule: Rule::Bold, ..end }));
    assert_eq!(parser.rule(), Rule::LinkSingle);

    assert_eq!(link(&mut at_end()), Err(end));
    assert_eq!(link_new_tab(&mut at_end()), Err(end));
    assert_eq!(header(&mut at_end()), Err(end));
    assert_eq!(check_step(&mut at_end(), Token::LeftBracket), Err(end));
    assert_eq!(
        check_step(&mut at_end(), Token::InputEnd),
        Err(ParseWarning { kind: ParseWarningKind::EndOfInput, ..end })
    );

    let mut parser = Parser::new(&tokens, &settings);
    assert_eq!(check_step(&mut parser, Token::InputStart), Ok(()));
    assert_eq!(parser.current().slice, "a");
    match consume(&mut parser) {
        Ok(success) => assert_eq!(success.item, Elements::Single(text("a"))),
        Err(warning) => panic!("text is consumed: {:?}", warning),
    }
    assert_eq!(parser.current().token, Token::InputEnd);
}
