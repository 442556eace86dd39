use vecno_wallet::text::{
    concat3, contains_str, count_words, decimal_string, ends_with_char, first_word_of, join_spaced,
    same_text, trim, trim_end_char, utf8_len_exceeds,
};

#[test]
fn trim_removes_unicode_whitespace_on_both_sides() {
    assert_eq!(trim("  hello world \t\n"), "hello world");
    assert_eq!(trim("\u{3000}\u{a0}x\u{2003}"), "x");
    assert_eq!(trim("   "), "");
    assert_eq!(trim(""), "");
    assert_eq!(trim("a b"), "a b");
}

#[test]
fn trim_matches_std_trim() {
    for s in ["", " ", " a", "a ", "\u{85}mid\u{85}", "\u{200b}zero-width\u{200b}", "x\u{1680}"] {
        assert_eq!(trim(s), s.trim());
    }
}

#[test]
fn words_are_counted_like_split_whitespace() {
    assert_eq!(count_words(""), 0);
    assert_eq!(count_words("   "), 0);
    assert_eq!(count_words("one"), 1);
    assert_eq!(count_words("  one  two\tthree\n"), 3);
    let phrase = "a b c d e f g h i j k l";
    assert_eq!(count_words(phrase), phrase.split_whitespace().count());
}

#[test]
fn first_word_skips_leading_whitespace() {
    assert_eq!(first_word_of("  Apple pie"), "Apple");
    assert_eq!(first_word_of(""), "");
    assert_eq!(first_word_of("   "), "");
    assert_eq!(first_word_of("single"), "single");
}

#[test]
fn join_spaced_joins_with_single_spaces() {
    let words = vec!["alpha".to_string(), "beta".to_string(), "gamma".to_string()];
    assert_eq!(join_spaced(&words), "alpha beta gamma");
    assert_eq!(join_spaced(&vec![]), "");
    assert_eq!(join_spaced(&vec!["one".to_string()]), "one");
}

#[test]
fn substring_search() {
    assert!(contains_str("Failed to fetch", "fetch"));
    assert!(!contains_str("Failed to fetch", "Fetch"));
    assert!(contains_str("abc", ""));
    assert!(!contains_str("", "a"));
    assert!(ends_with_char("12.", '.'));
    assert!(!ends_with_char("", '.'));
    assert!(same_text("x", "x"));
    assert!(!same_text("x", "xy"));
}

#[test]
fn decimal_rendering() {
    assert_eq!(decimal_string(0), "0");
    assert_eq!(decimal_string(7), "7");
    assert_eq!(decimal_string(1234567890), "1234567890");
    assert_eq!(decimal_string(u64::MAX), u64::MAX.to_string());
}

#[test]
fn trailing_characters_are_trimmed() {
    assert_eq!(trim_end_char("1.2300", '0'), "1.23");
    assert_eq!(trim_end_char("000", '0'), "");
    assert_eq!(trim_end_char("abc", '0'), "abc");
    assert_eq!(concat3("a", "b", "c"), "abc");
}

#[test]
fn utf8_length_is_counted_in_bytes() {
    assert!(!utf8_len_exceeds("abcdefg", 7));
    assert!(utf8_len_exceeds("abcdefgh", 7));
    assert!(utf8_len_exceeds("éééé", 7));
    assert!(!utf8_len_exceeds("ééé", 7));
    assert!(utf8_len_exceeds("\u{1f510}\u{1f510}", 7));
}
