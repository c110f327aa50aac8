use ftml::data::PageInfo;
use ftml::parsing::{parse_wikitext, tokenize};
use ftml::preproc::substitute;
use ftml::render::json::JsonRender;
use ftml::render::text::TextRender;
use ftml::settings::{WikitextMode, WikitextSettings};
use ftml::tree::{ContainerType, Element, LinkLocation, ListItem};

struct Generator(u64);

impl Generator {
    fn next(&mut self) -> usize {
        self.0 = self.0.wrapping_mul(6364136223846793005).wrapping_add(1442695040888963407);
        (self.0 >> 33) as usize
    }

    fn text(&mut self, pieces: &[&str], most: usize) -> String {
        let count = self.next() % (most + 1);
        let mut out = String::new();
        for _ in 0..count {
            out.push_str(pieces[self.next() % pieces.len()]);
        }
        out
    }
}

const PIECES: [&str; 40] = [
    "a", "b", " ", "  ", "\n", "\n\n", "\r", "\r\n", "\t", "\\", "\\\n", "*", "#", "**", "//", "__",
    "^^", ",,", "{{", "}}", "--", "[", "[*", "]", "[[", "[[/", "[[*", "]]", ":", " : ", "=", "\"",
    "+", "++ ", "ruby", "rt", "b", "https://x.y/", "\u{e9}", "\u{3000}",
];

fn check_elements(elements: &[Element]) {
    for element in elements {
        match element {
            Element::Partial(_) => panic!("partial element in a finished tree"),
            Element::Container { ctype, elements, .. } => {
                if let ContainerType::Header(level) = ctype {
                    assert!((1..=6).contains(level));
                }
                check_elements(elements);
            }
            Element::Link { target: LinkLocation::Url(url), .. } => {
                assert!(!url.is_empty());
            }
            Element::LineBreaks(count) => assert!(*count >= 1),
            Element::List { items, .. } => {
                assert!(!items.is_empty());
                for item in items {
                    match item {
                        ListItem::Elements(elements) => check_elements(elements),
                        ListItem::SubList(list) => {
                            assert!(matches!(**list, Element::List { .. }));
                            check_elements(std::slice::from_ref(&**list));
                        }
                    }
                }
            }
            Element::DefinitionList(items) => {
                assert!(!items.is_empty());
                for item in items {
                    assert!(!item.key.is_empty());
                    check_elements(&item.key);
                    check_elements(&item.value);
                }
            }
            _ => {}
        }
    }
}

#[test]
fn every_input_parses_to_a_finished_tree() {
    let settings = WikitextSettings::from_mode(WikitextMode::Page);
    let info = PageInfo::dummy();
    let mut generator = Generator(7);
    for _ in 0..1500 {
        let input = generator.text(&PIECES, 24);
        let (tree, _) = parse_wikitext(&input, &settings);
        check_elements(&tree.elements);
        let headings = tree
            .elements
            .iter()
            .filter(|e| matches!(e, Element::Container { ctype: ContainerType::Header(_), .. }))
            .count();
        assert_eq!(tree.table_of_contents.len(), headings);
        assert_eq!(tree.to_owned(), tree);
        let text = TextRender.render(&tree, &info, &settings);
        assert!(!text.starts_with('\n') && !text.ends_with('\n'));
        let json = JsonRender::compact().render(&tree, &info, &settings);
        let owned = JsonRender::compact().render(&tree.to_owned(), &info, &settings);
        assert_eq!(json, owned);
    }
}

#[test]
fn tokens_of_every_input_cover_it() {
    let mut generator = Generator(11);
    for _ in 0..1500 {
        let input = generator.text(&PIECES, 24);
        let tokens = tokenize(&input).into_tokens();
        let joined: String = tokens.iter().map(|t| t.slice.as_str()).collect();
        assert_eq!(joined, input);
        assert_eq!(tokens.last().map(|t| t.span.end), Some(input.len()));
        assert_eq!(tokens.last().map(|t| t.chars.end), Some(input.chars().count()));
        for token in &tokens {
            assert_eq!(&input[token.span.start..token.span.end], token.slice);
        }
    }
}

#[test]
fn normalizing_twice_changes_nothing_unless_a_blank_line_is_left() {
    let mut generator = Generator(13);
    let mut with_blank_line = 0;
    for _ in 0..1500 {
        let input = generator.text(&PIECES, 24);
        let mut once = input.clone();
        substitute(&mut once);
        let mut twice = once.clone();
        substitute(&mut twice);
        let blank_line = once
            .split('\n')
            .any(|line| !line.is_empty() && line.chars().all(char::is_whitespace))
            || once.ends_with("\n\n")
            || once.starts_with('\n')
            || once == "\n";
        if blank_line {
            with_blank_line += 1;
        } else {
            assert_eq!(twice, once, "input {:?}", input);
        }
        assert!(!once.contains('\r') && !once.contains('\t') && !once.contains("\\\n"));
    }
    assert!(with_blank_line < 1500);
}
