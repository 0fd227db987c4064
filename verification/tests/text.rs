use shared_service::text::{
    chars_equal, find_chars, is_blank_chars, is_whitespace, join_with_space, lines_with_endings,
    replace_first_chars, split_whitespace, strip_prefix_chars, to_chars,
};

fn chars(s: &str) -> Vec<char> {
    s.chars().collect()
}

fn text(v: &[char]) -> String {
    v.iter().collect()
}

#[test]
fn whitespace_is_the_unicode_white_space_set() {
    for c in ['\t', '\n', '\u{b}', '\u{c}', '\r', ' ', '\u{85}', '\u{a0}', '\u{1680}', '\u{2000}', '\u{200a}', '\u{2028}', '\u{2029}', '\u{202f}', '\u{205f}', '\u{3000}'] {
        assert!(is_whitespace(c));
        assert!(c.is_whitespace());
    }
    for c in ['a', '\u{200b}', '\u{feff}', '_', '\u{2060}'] {
        assert!(!is_whitespace(c));
        assert!(!c.is_whitespace());
    }
}

#[test]
fn words_match_split_whitespace() {
    for s in ["", "   ", "one", "  one two\tthree\n", "a\u{3000}b\u{a0}c", "x  y"] {
        let got: Vec<String> = split_whitespace(&chars(s)).iter().map(|w| text(w)).collect();
        let want: Vec<String> = s.split_whitespace().map(str::to_string).collect();
        assert_eq!(got, want);
    }
}

#[test]
fn lines_keep_their_endings() {
    let got: Vec<String> = lines_with_endings(&chars("a\nbc\n\nd")).iter().map(|l| text(l)).collect();
    assert_eq!(got, vec!["a\n", "bc\n", "\n", "d"]);
    assert!(lines_with_endings(&chars("")).is_empty());
    let got: Vec<String> = lines_with_endings(&chars("x\n")).iter().map(|l| text(l)).collect();
    assert_eq!(got, vec!["x\n"]);
}

#[test]
fn finding_and_replacing_the_first_occurrence() {
    assert_eq!(find_chars(&chars("abcabc"), &chars("bc")), Some(1));
    assert_eq!(find_chars(&chars("abc"), &chars("x")), None);
    assert_eq!(find_chars(&chars("abc"), &chars("")), Some(0));
    assert_eq!(text(&replace_first_chars(&chars("abcabc"), &chars("bc"), &chars("X"))), "aXabc");
    assert_eq!(text(&replace_first_chars(&chars("abc"), &chars("z"), &chars("X"))), "abc");
    assert_eq!(text(&replace_first_chars(&chars("abc"), &chars(""), &chars("X"))), "Xabc");
}

#[test]
fn prefixes_blanks_and_equality() {
    assert_eq!(strip_prefix_chars(&chars("language-rust"), &chars("language-")).map(|r| text(&r)), Some("rust".to_string()));
    assert_eq!(strip_prefix_chars(&chars("lang"), &chars("language-")), None);
    assert!(is_blank_chars(&chars(" \t\n")));
    assert!(is_blank_chars(&chars("")));
    assert!(!is_blank_chars(&chars(" x ")));
    assert!(chars_equal(&chars("ts"), &to_chars("ts")));
    assert!(!chars_equal(&chars("ts"), &chars("tsx")));
}

#[test]
fn joining_with_spaces() {
    assert_eq!(join_with_space(&vec!["a".to_string(), "b".to_string(), "c".to_string()]), "a b c");
    assert_eq!(join_with_space(&vec![]), "");
    assert_eq!(join_with_space(&vec!["solo".to_string()]), "solo");
}
