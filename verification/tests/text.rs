use git_hydra::text::{
    char_is_whitespace, chars_of, copy_range, join_into_string, join_range, split_into_lines,
    string_of, text_contains, text_is_blank, text_starts_with, texts_equal, trimmed,
};

fn lines_of(text: &str) -> Vec<String> {
    split_into_lines(&chars_of(text)).iter().map(string_of).collect()
}

#[test]
fn chars_and_strings_convert_both_ways() {
    assert_eq!(chars_of("héllo"), vec!['h', 'é', 'l', 'l', 'o']);
    assert_eq!(string_of(&vec!['a', 'ß', 'c']), "aßc");
    assert_eq!(string_of(&chars_of("")), "");
    assert_eq!(copy_range(&chars_of("abcdef"), 2, 4), vec!['c', 'd']);
}

#[test]
fn lines_split_as_the_standard_library_splits_them() {
    for text in [
        "", "a", "a\n", "a\nb", "a\n\nb\n", "\n", "\n\n", "a\r\nb\r\n", "a\rb", "a\r", "a\r\r\n",
        "\r\n", "x\n\r\ny",
    ] {
        let expected: Vec<String> = text.lines().map(|line| line.to_string()).collect();
        assert_eq!(lines_of(text), expected, "for {:?}", text);
    }
}

#[test]
fn final_line_ending_adds_no_line() {
    assert_eq!(lines_of("a\nb\n"), vec!["a", "b"]);
    assert_eq!(lines_of("a\nb"), vec!["a", "b"]);
    assert_eq!(lines_of("a\n\n"), vec!["a", ""]);
}

#[test]
fn lines_join_with_line_feeds_and_none_at_the_end() {
    let lines = vec![chars_of("a"), chars_of(""), chars_of("b")];
    assert_eq!(join_into_string(&lines), "a\n\nb");
    assert_eq!(join_into_string(&Vec::new()), "");
    assert_eq!(join_into_string(&vec![chars_of("only")]), "only");
    assert_eq!(join_range(&lines, 1, 3), "\nb");
    assert_eq!(join_range(&lines, 1, 1), "");
}

#[test]
fn trimming_takes_whitespace_from_both_ends_only() {
    assert_eq!(trimmed("  a b \t\r\n"), "a b");
    assert_eq!(trimmed("abc"), "abc");
    assert_eq!(trimmed(" \n "), "");
    assert_eq!(trimmed(""), "");
    assert_eq!(trimmed("\u{a0}x\u{2003}"), "x");
    assert!(text_is_blank(" \t\n"));
    assert!(text_is_blank(""));
    assert!(!text_is_blank(" x "));
}

#[test]
fn prefixes_and_inner_texts_are_found() {
    assert!(text_starts_with("origin/main", "origin/"));
    assert!(!text_starts_with("my-origin/main", "origin/"));
    assert!(!text_starts_with("orig", "origin/"));
    assert!(text_starts_with("anything", ""));
    assert!(text_contains("a ssh://host", "ssh://"));
    assert!(text_contains("ssh://", "ssh://"));
    assert!(!text_contains("ssh:/", "ssh://"));
    assert!(text_contains("abc", ""));
    assert!(text_contains("", ""));
    assert!(!text_contains("", "a"));
}

#[test]
fn whitespace_is_what_the_standard_library_takes_for_it() {
    for code in 0..=0x10ffff_u32 {
        if let Some(c) = char::from_u32(code) {
            assert_eq!(char_is_whitespace(c), c.is_whitespace(), "for U+{:04X}", code);
        }
    }
}

#[test]
fn trimming_agrees_with_the_standard_library() {
    for text in ["", " ", "a", " a", "a ", "\t a b \n", "\u{3000}x y\u{85}", "\u{200b}x", "  \r\n"] {
        assert_eq!(trimmed(text), text.trim(), "for {:?}", text);
    }
}

#[test]
fn texts_are_equal_when_their_characters_are() {
    assert!(texts_equal("", ""));
    assert!(texts_equal("abc", "abc"));
    assert!(!texts_equal("abc", "abd"));
    assert!(!texts_equal("abc", "ab"));
    assert!(!texts_equal("ab", "abc"));
    assert!(!texts_equal("", "a"));
}
