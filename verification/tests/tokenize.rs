use ftml::parsing::token::Token;
use ftml::parsing::tokenize::tokenize;

fn kinds(text: &str) -> Vec<(Token, String, usize, usize)> {
    tokenize(text)
        .into_tokens()
        .into_iter()
        .map(|t| (t.token, t.slice, t.span.start, t.span.end))
        .collect()
}

fn tok(token: Token, slice: &str, start: usize, end: usize) -> (Token, String, usize, usize) {
    (token, String::from(slice), start, end)
}

#[test]
fn tokenize_empty_input() {
    assert_eq!(
        kinds(""),
        vec![tok(Token::InputStart, "", 0, 0), tok(Token::InputEnd, "", 0, 0)]
    );
}

#[test]
fn tokenize_link() {
    assert_eq!(
        kinds("[https://example.com/ Label text]"),
        vec![
            tok(Token::InputStart, "", 0, 0),
            tok(Token::LeftBracket, "[", 0, 1),
            tok(Token::Identifier, "https", 1, 6),
            tok(Token::Colon, ":", 6, 7),
            tok(Token::Italics, "//", 7, 9),
            tok(Token::Identifier, "example", 9, 16),
            tok(Token::Other, ".", 16, 17),
            tok(Token::Identifier, "com", 17, 20),
            tok(Token::Other, "/", 20, 21),
            tok(Token::Whitespace, " ", 21, 22),
            tok(Token::Identifier, "Label", 22, 27),
            tok(Token::Whitespace, " ", 27, 28),
            tok(Token::Identifier, "text", 28, 32),
            tok(Token::RightBracket, "]", 32, 33),
            tok(Token::InputEnd, "", 33, 33),
        ]
    );
}

#[test]
fn tokenize_longest_symbol_wins() {
    let found: Vec<Token> = tokenize("[[/[[*[[[*[]]]").into_tokens().into_iter().map(|t| t.token).collect();
    assert_eq!(
        found,
        vec![
            Token::InputStart,
            Token::LeftBlockEnd,
            Token::LeftBlockStar,
            Token::LeftBlock,
            Token::LeftBracketStar,
            Token::LeftBracket,
            Token::RightBlock,
            Token::RightBracket,
            Token::InputEnd,
        ]
    );
}

#[test]
fn tokenize_list_markers_only_at_line_start() {
    assert_eq!(
        kinds("* a\n  # b*#"),
        vec![
            tok(Token::InputStart, "", 0, 0),
            tok(Token::BulletItem, "*", 0, 1),
            tok(Token::Whitespace, " ", 1, 2),
            tok(Token::Identifier, "a", 2, 3),
            tok(Token::LineBreak, "\n", 3, 4),
            tok(Token::Whitespace, "  ", 4, 6),
            tok(Token::NumberedItem, "#", 6, 7),
            tok(Token::Whitespace, " ", 7, 8),
            tok(Token::Identifier, "b", 8, 9),
            tok(Token::Other, "*", 9, 10),
            tok(Token::Other, "#", 10, 11),
            tok(Token::InputEnd, "", 11, 11),
        ]
    );
}

#[test]
fn tokenize_breaks_and_headings() {
    assert_eq!(
        kinds("++ T\n\n+++++++x +\n"),
        vec![
            tok(Token::InputStart, "", 0, 0),
            tok(Token::Heading, "++", 0, 2),
            tok(Token::Whitespace, " ", 2, 3),
            tok(Token::Identifier, "T", 3, 4),
            tok(Token::ParagraphBreak, "\n\n", 4, 6),
            tok(Token::Heading, "++++++", 6, 12),
            tok(Token::Other, "+", 12, 13),
            tok(Token::Identifier, "x", 13, 14),
            tok(Token::Whitespace, " ", 14, 15),
            tok(Token::Other, "+", 15, 16),
            tok(Token::LineBreak, "\n", 16, 17),
            tok(Token::InputEnd, "", 17, 17),
        ]
    );
}

#[test]
fn tokenize_slices_cover_the_text() {
    for text in ["", "**bold** //it// --", "a\n\n\nb [[ruby]]\u{65e5}[[rt]]\u{e9}[[/rt]][[/ruby]]", ": k : v\n"] {
        let tokens = tokenize(text).into_tokens();
        let joined: String = tokens.iter().map(|t| t.slice.as_str()).collect();
        assert_eq!(joined, text);
        for pair in tokens.windows(2) {
            assert_eq!(pair[0].span.end, pair[1].span.start);
        }
    }
}

#[test]
fn tokenize_spans_count_bytes_and_characters() {
    assert_eq!(
        kinds("\u{e9}\u{65e5} x"),
        vec![
            tok(Token::InputStart, "", 0, 0),
            tok(Token::Other, "\u{e9}", 0, 2),
            tok(Token::Other, "\u{65e5}", 2, 5),
            tok(Token::Whitespace, " ", 5, 6),
            tok(Token::Identifier, "x", 6, 7),
            tok(Token::InputEnd, "", 7, 7),
        ]
    );
    let text = "\u{e9}\u{65e5} x\u{1f600}!";
    let places: Vec<(usize, usize)> = tokenize(text)
        .into_tokens()
        .iter()
        .map(|t| (t.chars.start, t.chars.end))
        .collect();
    assert_eq!(places, vec![(0, 0), (0, 1), (1, 2), (2, 3), (3, 4), (4, 5), (5, 6), (6, 6)]);
    for token in tokenize(text).into_tokens() {
        assert_eq!(&text[token.span.start..token.span.end], token.slice);
    }
}
