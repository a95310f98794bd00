use chromix::text::{split_words, wrap};

#[test]
fn split_words_on_any_white_space() {
    assert_eq!(split_words("  a\tbb \n ccc  "), vec!["a", "bb", "ccc"]);
    assert!(split_words("   ").is_empty());
    assert_eq!(split_words("x\u{3000}y"), vec!["x", "y"]);
}

#[test]
fn wrap_greedy_lines() {
    assert_eq!(wrap("aaa bbb ccc", 7), vec!["aaa bbb", "ccc"]);
    assert_eq!(wrap("aaa bbb ccc", 11), vec!["aaa bbb ccc"]);
    assert_eq!(wrap("aaa  bbb\nccc", 3), vec!["aaa", "bbb", "ccc"]);
}

#[test]
fn wrap_long_word_stands_alone() {
    assert_eq!(wrap("a abcdefgh b", 4), vec!["a", "abcdefgh", "b"]);
}

#[test]
fn wrap_empty_text() {
    assert!(wrap("", 10).is_empty());
    assert!(wrap(" \t ", 10).is_empty());
}

#[test]
fn wrap_counts_characters_not_bytes() {
    assert_eq!(wrap("éé éé", 5), vec!["éé éé"]);
}
