use cli_kvs::text::{is_separator, join_words, same_text, split_words};

#[test]
fn words_are_split_at_runs_of_spaces() {
    assert_eq!(split_words("set  alpha   beta gamma"), vec!["set", "alpha", "beta", "gamma"]);
    assert_eq!(split_words("one"), vec!["one"]);
    assert_eq!(split_words("  lead and trail  "), vec!["lead", "and", "trail"]);
}

#[test]
fn blank_lines_have_no_words() {
    assert!(split_words("").is_empty());
    assert!(split_words(" ").is_empty());
    assert!(split_words(" \t \r\n").is_empty());
}

#[test]
fn every_ascii_separator_splits() {
    assert_eq!(split_words("a\tb\nc\rd\x0Be\x0Cf g"), vec!["a", "b", "c", "d", "e", "f", "g"]);
    for c in ['\t', '\n', '\x0B', '\x0C', '\r', ' '] {
        assert!(is_separator(c));
    }
}

#[test]
fn other_characters_do_not_split() {
    for c in ['a', '0', '_', '\0', '\x1F', '\u{A0}', '\u{85}', '\u{2003}', '\u{3000}', 'é'] {
        assert!(!is_separator(c));
    }
    assert_eq!(split_words("a\u{A0}b"), vec!["a\u{A0}b"]);
    assert_eq!(split_words("a\u{3000}b c"), vec!["a\u{3000}b", "c"]);
}

#[test]
fn words_keep_characters_of_any_width() {
    assert_eq!(split_words("grüße  世界 \u{1F600}x"), vec!["grüße", "世界", "\u{1F600}x"]);
}

#[test]
fn join_puts_one_space_between_words() {
    assert_eq!(join_words(&["beta", "gamma"]), "beta gamma");
    assert_eq!(join_words(&["a", "b", "c"]), "a b c");
    assert_eq!(join_words(&["solo"]), "solo");
    assert_eq!(join_words(&[]), "");
}

#[test]
fn join_keeps_empty_parts() {
    assert_eq!(join_words(&["", ""]), " ");
    assert_eq!(join_words(&["a", "", "b"]), "a  b");
}

#[test]
fn splitting_undoes_joining() {
    let parts = vec!["x", "yy", "zzz"];
    let line = join_words(&parts);
    assert_eq!(split_words(&line), parts);
    let messy = "  x \t yy\n\nzzz ";
    assert_eq!(join_words(&split_words(messy)), "x yy zzz");
}

#[test]
fn same_text_compares_byte_for_byte() {
    assert!(same_text("", ""));
    assert!(same_text("abc", "abc"));
    assert!(!same_text("abc", "abd"));
    assert!(!same_text("abc", "ab"));
    assert!(!same_text("ab", "abc"));
    assert!(!same_text("abc", "ABC"));
    assert!(same_text("世界", "世界"));
    assert!(!same_text("e\u{301}", "\u{e9}"));
}
