use task_notify::text::{
    chars_of, is_blank, is_whitespace, join_words_from, occurs, split_lines, split_words,
    trim,
};

fn chars(s: &str) -> Vec<char> {
    s.chars().collect()
}

fn text(v: &[char]) -> String {
    v.iter().collect()
}

#[test]
fn whitespace_matches_std() {
    for c in ['\t', '\n', '\r', ' ', '\u{85}', '\u{a0}', '\u{2003}', '\u{3000}', 'a', '-', '\u{200b}'] {
        assert_eq!(is_whitespace(c), c.is_whitespace(), "{c:?}");
    }
}

#[test]
fn trim_and_blank() {
    assert_eq!(trim("  a b \n"), "a b");
    assert_eq!(trim("\u{3000}x\u{a0}"), "x");
    assert_eq!(trim(" \t "), "");
    assert!(is_blank(" \t\n"));
    assert!(is_blank(""));
    assert!(!is_blank(" x "));
}

#[test]
fn contains_and_lowercase() {
    assert!(occurs(&chars("gnome-terminal-server"), &chars("terminal")));
    assert!(occurs(&chars("abc"), &chars("")));
    assert!(!occurs(&chars("ab"), &chars("abc")));
    assert_eq!(chars_of("été"), chars("été"));
}

#[test]
fn words_lines_and_join() {
    let w = split_words(&chars("  0x01  0 kitty.Kitty host  a  b "));
    let got: Vec<String> = w.iter().map(|v| text(v)).collect();
    assert_eq!(got, vec!["0x01", "0", "kitty.Kitty", "host", "a", "b"]);
    assert_eq!(text(&join_words_from(&w, 4)), "a b");
    assert_eq!(text(&join_words_from(&w, 6)), "");
    let l = split_lines(&chars("a\n\nb\n"));
    let got: Vec<String> = l.iter().map(|v| text(v)).collect();
    assert_eq!(got, vec!["a", "", "b", ""]);
}
