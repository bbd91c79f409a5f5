use sixty_challenge_days::word_counter::WordCountTable;

#[test]
fn should_count_word() {
    let mut word_counter = WordCountTable::new();

    word_counter.count_word(&"String".to_string());
    word_counter.count_word(&"String".to_string());
    word_counter.count_word(&"String".to_string());
    word_counter.count_word(&"String".to_string());
    word_counter.count_word(&"String".to_string());
    word_counter.count_word(&"STest".to_string());
    word_counter.count_word(&"STest".to_string());
    word_counter.count_word(&"STest".to_string());

    assert_eq!(word_counter.get("String"), Some(4));
    assert_eq!(word_counter.get("STest"), Some(2));
    assert_eq!(word_counter.get("other"), None);
}

#[test]
fn totals_list_words_in_first_seen_order() {
    let mut table = WordCountTable::new();
    table.count_word(&"b".to_string());
    table.count_word(&"a".to_string());
    table.count_word(&"b".to_string());
    assert_eq!(
        table.totals(),
        vec![("b".to_string(), 1), ("a".to_string(), 0)]
    );
}
