use sitecheck::words::{most_frequent_word, split_words};

#[test]
fn most_frequent_word_of_a_sentence() {
    let text = "the quick brown fox jumps over the lazy dog the quick brown fox";
    assert_eq!(most_frequent_word(text), ("the".to_string(), 3));
}

#[test]
fn first_word_wins_a_tie() {
    assert_eq!(most_frequent_word("b a a b c"), ("b".to_string(), 2));
    assert_eq!(most_frequent_word("x y z"), ("x".to_string(), 1));
    assert_eq!(most_frequent_word("a b b"), ("b".to_string(), 2));
}

#[test]
fn single_word_counts_once() {
    assert_eq!(most_frequent_word("  solo\n"), ("solo".to_string(), 1));
}

#[test]
fn words_are_case_sensitive() {
    assert_eq!(most_frequent_word("The the THE the"), ("the".to_string(), 2));
}

#[test]
fn splitting_is_that_of_the_standard_library() {
    for s in ["", "   ", "a", " a  b\tc\n", "x\u{2003}y\u{a0}z ", "one", "tab\tsep\r\nline  "] {
        let want: Vec<String> = s.split_whitespace().map(|w| w.to_string()).collect();
        assert_eq!(split_words(s), want);
    }
}
