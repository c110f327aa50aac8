use ftml::preproc::rewrite::Rewrite;
use ftml::preproc::substitute;
use ftml::preproc::whitespace::apply_rule;

fn run(input: &str) -> String {
    let mut string = String::from(input);
    substitute(&mut string);
    string
}

fn run_rule(rule: Rewrite, input: &str) -> String {
    let mut string = String::from(input);
    apply_rule(&mut string, rule);
    string
}

#[test]
fn test_regexes() {
    let rules = [
        Rewrite::Tabs,
        Rewrite::DosNewlines,
        Rewrite::MacNewlines,
        Rewrite::ConcatBackslashes,
        Rewrite::Whitespace,
        Rewrite::CompressNewlines,
    ];
    for rule in rules {
        let _ = run_rule(rule, "");
    }
}

#[test]
fn test_substitute() {
    let mut string = String::new();

    string.clear();
    string.push_str("\tapple\n\tbanana\tcherry\n");
    substitute(&mut string);
    assert_eq!(&string, "    apple\n    banana    cherry\n");

    string.clear();
    string.push_str("newlines:\r\n* apple\r* banana\r\ncherry\n\r* durian");
    substitute(&mut string);
    assert_eq!(&string, "newlines:\n* apple\n* banana\ncherry\n\n* durian");

    string.clear();
    string.push_str(
        "apple\nbanana\n\ncherry\n\n\npineapple\n\n\n\nstrawberry\n\n\n\n\nblueberry\n\n\n\n\n\n",
    );
    substitute(&mut string);
    assert_eq!(&string, "apple\nbanana\n\ncherry\n\npineapple\n\nstrawberry\n\nblueberry\n");

    string.clear();
    string.push_str(
        "apple\rbanana\r\rcherry\r\r\rpineapple\r\r\r\rstrawberry\r\r\r\r\rblueberry\r\r\r\r\r\r",
    );
    substitute(&mut string);
    assert_eq!(&string, "apple\nbanana\n\ncherry\n\npineapple\n\nstrawberry\n\nblueberry\n");

    string.clear();
    string.push_str("concat:\napple banana \\\nCherry\\\nPineapple \\ grape\nblueberry\n");
    substitute(&mut string);
    assert_eq!(&string, "concat:\napple banana CherryPineapple \\ grape\nblueberry\n");

    string.clear();
    string.push_str("<\n        \n      \n  \n      \n>");
    substitute(&mut string);
    assert_eq!(&string, "<\n\n>");
}

#[test]
fn newline_compression() {
    assert_eq!(run("a\n\n\n\nb"), "a\n\nb");
}

#[test]
fn compress_rule_takes_following_whitespace() {
    assert_eq!(run_rule(Rewrite::CompressNewlines, "a\n\n\n  b"), "a\n\nb");
    assert_eq!(run_rule(Rewrite::CompressNewlines, "a\n \n\t\n\n \n"), "a\n\n");
    assert_eq!(run_rule(Rewrite::CompressNewlines, "a\n\nb\n \nc"), "a\n\nb\n \nc");
    assert_eq!(run_rule(Rewrite::CompressNewlines, " \n\n\nx \n\n\n\n"), " \n\nx \n\n");
}

#[test]
fn whitespace_rule_empties_blank_lines() {
    assert_eq!(run_rule(Rewrite::Whitespace, "a\n  \nb"), "a\n\nb");
    assert_eq!(run_rule(Rewrite::Whitespace, "a\n\n\nb"), "a\n\nb");
    assert_eq!(run_rule(Rewrite::Whitespace, "a\n\n"), "a\n");
    assert_eq!(run_rule(Rewrite::Whitespace, "  "), "");
    assert_eq!(run_rule(Rewrite::Whitespace, " x\n\u{a0}\u{3000}\ny "), " x\n\ny ");
    assert_eq!(run_rule(Rewrite::Whitespace, "\n\nx"), "\nx");
}

#[test]
fn literal_rules_rescan_from_the_start() {
    assert_eq!(run_rule(Rewrite::DosNewlines, "a\r\r\nb"), "a\nb");
    assert_eq!(run_rule(Rewrite::ConcatBackslashes, "a\\\\\n\nb"), "ab");
    assert_eq!(run_rule(Rewrite::MacNewlines, "\ra\r"), "\na\n");
    assert_eq!(run_rule(Rewrite::Tabs, "\t\u{e9}\t"), "    \u{e9}    ");
}

#[test]
fn substitute_keeps_text_outside_the_ascii_range() {
    assert_eq!(run("\u{e9}t\u{e9}\r\n\u{65e5}\u{672c}\t!"), "\u{e9}t\u{e9}\n\u{65e5}\u{672c}    !");
}

#[test]
fn substitute_is_not_always_idempotent() {
    let once = run(" \\\n");
    assert_eq!(once, " ");
    assert_eq!(run(&once), "");
}

#[test]
fn substitute_twice_gives_the_same_text() {
    for input in ["\tapple\r\nbanana\r\rcherry  \n \n\n\nend\n\n\n", "a\\\nb", "", "\n\n\n"] {
        let once = run(input);
        assert_eq!(run(&once), once);
    }
}

#[test]
fn substitute_output_holds_no_match_of_the_fixed_rules() {
    let inputs = [
        "\r\n\r\r\n\tx\t\\\r\n\n\n\n \n\t\n\n",
        "a\\\n\\\n\n\n\\\n\nb",
        "\\\t\n",
        "x\n\n\u{a0}\n\u{3000}\n\ny",
        "\\\\\n\n\n\n",
    ];
    for input in inputs {
        let output = run(input);
        assert!(!output.contains('\r'), "carriage return in {:?}", output);
        assert!(!output.contains('\t'), "tab in {:?}", output);
        assert!(!output.contains("\\\n"), "continuation in {:?}", output);
        let chars: Vec<char> = output.chars().collect();
        for start in 0..chars.len() {
            if chars[start] != '\n' {
                continue;
            }
            let run_of_space: Vec<char> =
                chars[start..].iter().copied().take_while(|c| c.is_whitespace()).collect();
            let newlines = run_of_space.iter().filter(|c| **c == '\n').count();
            assert!(newlines < 3, "run of newlines in {:?}", output);
        }
        for rule in [
            Rewrite::DosNewlines,
            Rewrite::MacNewlines,
            Rewrite::ConcatBackslashes,
            Rewrite::Tabs,
            Rewrite::CompressNewlines,
        ] {
            assert_eq!(run_rule(rule, &output), output);
        }
    }
}

#[test]
fn rules_name_their_patterns() {
    assert_eq!(Rewrite::Tabs.pattern(), "\\t");
    assert_eq!(Rewrite::DosNewlines.pattern(), "\\r\\n");
    assert_eq!(Rewrite::MacNewlines.pattern(), "\\r");
    assert_eq!(Rewrite::ConcatBackslashes.pattern(), "\\\\\\n");
    assert_eq!(Rewrite::Whitespace.pattern(), "^\\s+$");
    assert_eq!(Rewrite::CompressNewlines.pattern(), "(?:\\n\\s*){3,}");
    assert!(Rewrite::Whitespace.multi_line() && Rewrite::CompressNewlines.multi_line());
    assert!(!Rewrite::Tabs.multi_line() && !Rewrite::DosNewlines.multi_line());
    assert_eq!(Rewrite::Tabs.replacement(), "    ");
    assert_eq!(Rewrite::CompressNewlines.replacement(), "\n\n");
    assert_eq!(Rewrite::Whitespace.replacement(), "");
}
