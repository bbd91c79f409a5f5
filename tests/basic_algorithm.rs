use sixty_challenge_days::basic_algorithm::{
    longest_word, palindrome_check, reverser_string, split_words, title_case, word_count,
};

#[test]
fn test_palindrome_check() {
    assert!(palindrome_check("Racecar!"));
    assert!(palindrome_check("A man, a plan, a canal: Panama!"));
    assert!(palindrome_check("madam"));
    assert!(!palindrome_check("hello"));
    assert!(!palindrome_check("Rust"));
}

#[test]
fn test_word_count() {
    assert_eq!(word_count("This is a sentence"), 4);
    assert_eq!(word_count("One word"), 2);
    assert_eq!(word_count(" Leading and trailing spaces "), 4);
    assert_eq!(word_count(""), 0);
}

#[test]
fn test_title_case() {
    assert_eq!(title_case("hello world"), "Hello World");
    assert_eq!(title_case("one-two-three"), "One-Two-Three");
    assert_eq!(
        title_case("a sentence with some words"),
        "A Sentence With Some Words"
    );
    assert_eq!(title_case(""), "");
}

#[test]
fn test_longest_word() {
    assert_eq!(longest_word("This is a long sentence"), "sentence");
    assert_eq!(longest_word("Two long words"), "words");
    assert_eq!(longest_word("One"), "One");
    assert_eq!(longest_word(""), "");
}

#[test]
fn reverser_string_reverses_characters() {
    assert_eq!(reverser_string("abc"), "cba");
    assert_eq!(reverser_string("ação"), "oãça");
    assert_eq!(reverser_string(""), "");
}

#[test]
fn word_count_skips_repeats_and_non_alphabetic_words() {
    assert_eq!(word_count("go go gone 42 x1"), 2);
}

#[test]
fn longest_word_keeps_the_last_of_equals() {
    assert_eq!(longest_word("abc def"), "def");
}

#[test]
fn palindrome_check_lowercases() {
    assert!(palindrome_check("AbBa"));
    assert!(palindrome_check(""));
}

#[test]
fn title_case_upper_cases_multi_char() {
    assert_eq!(title_case("ßa"), "SSa");
}

#[test]
fn split_words_at_white_space() {
    let ws = split_words("  a\tbc \n d ");
    assert_eq!(ws, vec![vec!['a'], vec!['b', 'c'], vec!['d']]);
}
